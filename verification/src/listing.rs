//! Entries of the remote listing and the paginated lister.
//!
//! The remote listing API returns entries page by page; a page may carry a
//! continuation cursor while more pages remain.  [`PaginatedLister`] turns
//! those pages into a single ordered sequence of entries: it buffers the
//! entries of each page taken in and hands them out in page order, asking its
//! driver for the next page exactly when the buffer runs dry and a cursor is
//! pending.  The driver performs the remote call and feeds the page back.

use vstd::prelude::*;

verus! {

/// One entry of the remote listing: an ordinary file with its display name,
/// full path and reported size; a folder; or anything else the remote side
/// reports (deleted or unrecognized entries).
pub enum RemoteEntry {
    File { name: String, path: String, size: u64 },
    Folder { path: String },
    Other,
}

impl RemoteEntry {
    /// The display name of a file entry; entries of any other kind carry
    /// none.
    pub open spec fn spec_name(self) -> Seq<char> {
        match self {
            RemoteEntry::File { name, .. } => name@,
            _ => Seq::empty(),
        }
    }
}

/// One page of the remote listing: its entries, and a continuation cursor
/// that is meaningful only while `has_more` is true.
pub struct ListPage {
    pub entries: Vec<RemoteEntry>,
    pub cursor: String,
    pub has_more: bool,
}

/// What the lister asks of its driver next: hand an entry out, perform one
/// continuation call with the given cursor, or stop because the page that
/// reported no continuation has been drained.
pub enum ListStep {
    Entry(RemoteEntry),
    Continue(String),
    Done,
}

/// Turns the page-based remote listing into a single ordered sequence.
///
/// The ghost field `pages` records the entries of every page taken in, and
/// `yielded` the entries already handed out; the well-formedness invariant
/// ties them to the executable state, so that a drained lister has yielded
/// exactly the concatenation of its pages.
pub struct PaginatedLister {
    pub buffer: Vec<RemoteEntry>,
    pub cursor: Option<String>,
    pub pages: Ghost<Seq<Seq<RemoteEntry>>>,
    pub yielded: Ghost<Seq<RemoteEntry>>,
}

impl PaginatedLister {
    /// The entries handed out so far, followed by the buffered remainder,
    /// are exactly the concatenation of all pages taken in.
    pub open spec fn wf(self) -> bool {
        self.yielded@ + self.buffer@ == self.pages@.flatten()
    }

    /// The lister neither holds buffered entries nor a pending cursor: the
    /// page that reported no continuation has been fully drained.
    pub open spec fn is_done(self) -> bool {
        self.buffer@.len() == 0 && self.cursor is None
    }

    /// Begin a traversal from the first page of a listing.
    pub fn start(page: ListPage) -> (r: Self)
        ensures
            r.wf(),
            r.pages@ == seq![page.entries@],
            r.yielded@ == Seq::<RemoteEntry>::empty(),
            r.buffer@ == page.entries@,
            r.cursor == if page.has_more {
                Some(page.cursor)
            } else {
                None::<String>
            },
    {
        let ghost initial_pages: Seq<Seq<RemoteEntry>> = seq![page.entries@];
        let ghost nothing_yielded: Seq<RemoteEntry> = Seq::empty();
        let cursor = if page.has_more {
            Some(page.cursor)
        } else {
            None
        };
        let r = PaginatedLister {
            buffer: page.entries,
            cursor,
            pages: Ghost(initial_pages),
            yielded: Ghost(nothing_yielded),
        };
        proof {
            r.pages@.lemma_flatten_singleton();
            assert(r.yielded@ + r.buffer@ =~= r.pages@.flatten());
        }
        r
    }

    /// One step of the traversal: the next buffered entry in page order;
    /// otherwise the pending cursor, handed out exactly once, so that the
    /// driver can fetch the continuation page; otherwise completion.
    pub fn next(&mut self) -> (r: ListStep)
        requires
            old(self).wf(),
        ensures
            final(self).wf(),
            final(self).pages == old(self).pages,
            old(self).buffer@.len() > 0 ==> {
                &&& r == ListStep::Entry(old(self).buffer@[0])
                &&& final(self).yielded@ == old(self).yielded@.push(old(self).buffer@[0])
                &&& final(self).buffer@ == old(self).buffer@.skip(1)
                &&& final(self).cursor == old(self).cursor
            },
            old(self).buffer@.len() == 0 && old(self).cursor is Some ==> {
                &&& r == ListStep::Continue(old(self).cursor.unwrap())
                &&& final(self).yielded == old(self).yielded
                &&& final(self).buffer == old(self).buffer
                &&& final(self).cursor is None
            },
            old(self).is_done() ==> r == ListStep::Done && *final(self) == *old(self),
    {
        if self.buffer.len() > 0 {
            let entry = self.buffer.remove(0);
            proof {
                self.yielded@ = self.yielded@.push(old(self).buffer@[0]);
                assert(self.buffer@ =~= old(self).buffer@.skip(1));
                assert(self.yielded@ + self.buffer@ =~= old(self).yielded@ + old(self).buffer@);
            }
            ListStep::Entry(entry)
        } else {
            match self.cursor.take() {
                Some(cursor) => ListStep::Continue(cursor),
                None => ListStep::Done,
            }
        }
    }

    /// Take in the continuation page fetched for the cursor handed out by
    /// [`Self::next`].
    pub fn feed(&mut self, page: ListPage)
        requires
            old(self).wf(),
            old(self).cursor is None,
        ensures
            final(self).wf(),
            final(self).pages@ == old(self).pages@.push(page.entries@),
            final(self).yielded == old(self).yielded,
            final(self).buffer@ == old(self).buffer@ + page.entries@,
            final(self).cursor == if page.has_more {
                Some(page.cursor)
            } else {
                None::<String>
            },
    {
        proof {
            old(self).pages@.lemma_flatten_push(page.entries@);
        }
        let mut entries = page.entries;
        self.buffer.append(&mut entries);
        self.cursor = if page.has_more {
            Some(page.cursor)
        } else {
            None
        };
        proof {
            self.pages@ = self.pages@.push(page.entries@);
            assert(self.yielded@ + self.buffer@ =~= self.pages@.flatten());
        }
    }
}

/// The lister yields the exact concatenation of all pages' entries, in
/// their original order: once it reports completion, the entries handed out
/// are precisely the flattened sequence of the pages taken in.
pub proof fn lemma_lister_yields_concatenation(lister: PaginatedLister)
    requires
        lister.wf(),
        lister.is_done(),
    ensures
        lister.yielded@ == lister.pages@.flatten(),
{
    assert(lister.yielded@ =~= lister.yielded@ + lister.buffer@);
}

} // verus!
