//! Publication of the current catalog.
//!
//! The store holds exactly one current catalog at any instant.  A catalog
//! is replaced as a whole, never mutated in place: readers borrow the store
//! shared (`&self`), while [`CatalogStore::replace`] takes it exclusively
//! (`&mut self`), so the swap of one fully built catalog for another is the
//! only write there is.  The expensive work of producing a new catalog —
//! the whole listing and download phase — happens before that exclusive
//! step; the embedding program supplies the reader/writer lock that lets
//! many readers share the store across threads and serializes writers
//! around the brief swap.

use vstd::prelude::*;
use vstd::rwlock::RwLock;
use vstd::rwlock::RwLockPredicate;

use crate::catalog::lemma_tracks_map_dom;
use crate::catalog::MusicAlbum;
use crate::catalog::MusicFile;
use crate::filter::spec_is_audio_name;

verus! {

/// Holds the currently published catalog.
pub struct CatalogStore {
    pub current: MusicAlbum,
}

impl View for CatalogStore {
    type V = Map<Seq<char>, Seq<u8>>;

    /// The keyed view of the currently published catalog.
    open spec fn view(&self) -> Map<Seq<char>, Seq<u8>> {
        self.current@
    }
}

impl CatalogStore {
    /// The published catalog is well-formed.
    pub open spec fn wf(self) -> bool {
        self.current.wf()
    }

    /// Construct a store publishing the given initial catalog.
    pub fn new(initial: MusicAlbum) -> (r: Self)
        requires
            initial.wf(),
        ensures
            r.wf(),
            r@ == initial@,
    {
        CatalogStore { current: initial }
    }

    /// Look a track up in the currently published catalog.  The result is
    /// drawn from that single catalog alone.
    pub fn get(&self, filename: &String) -> (r: Option<&MusicFile>)
        requires
            self.wf(),
        ensures
            match r {
                Some(f) => {
                    &&& self@.contains_key(filename@)
                    &&& f.key() == filename@
                    &&& f.bytes() == self@[filename@]
                },
                None => !self@.contains_key(filename@),
            },
    {
        self.current.get(filename)
    }

    /// Atomically install `album` as the current catalog.  The store's view
    /// afterwards is the new catalog's view, whole; nothing of the previous
    /// catalog remains visible.
    pub fn replace(&mut self, album: MusicAlbum)
        requires
            album.wf(),
        ensures
            final(self).wf(),
            final(self)@ == album@,
            final(self).current == album,
    {
        self.current = album;
    }

    /// The number of tracks in the currently published catalog.
    pub fn len(&self) -> (n: usize)
        requires
            self.wf(),
        ensures
            n == self@.dom().len(),
    {
        self.current.len()
    }
}

/// Publication is atomic from a reader's standpoint: what a completed `get`
/// observes is fully determined by the one catalog published at that
/// instant.  Two stores publishing the same catalog answer every lookup
/// identically, so no read can mix the entries of two different `replace`
/// calls.
pub proof fn lemma_get_reads_single_catalog(s1: CatalogStore, s2: CatalogStore, filename: Seq<char>)
    requires
        s1@ == s2@,
    ensures
        s1@.contains_key(filename) == s2@.contains_key(filename),
        s1@.contains_key(filename) ==> s1@[filename] == s2@[filename],
{
}

/// The lock invariant of the shared store: every catalog it ever publishes
/// is well-formed.
pub struct PublishedWf;

impl RwLockPredicate<CatalogStore> for PublishedWf {
    open spec fn inv(self, v: CatalogStore) -> bool {
        v.wf()
    }
}

/// The store behind a verified reader/writer lock, shareable across the
/// threads of the serving process.
///
/// Readers acquire the lock shared and observe one fully formed catalog;
/// writers are serialized around the swap of one whole catalog for another.
/// A reader blocks only for the brief exclusive swap, never for the network
/// phase of a refresh: everything expensive happens before the lock is
/// taken (see [`crate::coordinator::refresh_shared`]).
pub struct SharedCatalogStore {
    lock: RwLock<CatalogStore, PublishedWf>,
}

impl SharedCatalogStore {
    /// Construct a shared store publishing the given initial catalog.
    pub fn new(initial: MusicAlbum) -> (r: Self)
        requires
            initial.wf(),
    {
        SharedCatalogStore { lock: RwLock::new(CatalogStore::new(initial), Ghost(PublishedWf)) }
    }

    /// Look a track up in the catalog published at this instant.  The
    /// result is a copy drawn from that single well-formed catalog alone,
    /// so it answers to the requested key and, like every catalog entry,
    /// carries an accepted audio extension.
    pub fn get(&self, filename: &String) -> (r: Option<MusicFile>)
        ensures
            r matches Some(f) ==> f.key() == filename@ && spec_is_audio_name(f.key()),
    {
        let handle = self.lock.acquire_read();
        let store = handle.borrow();
        let r = match store.get(filename) {
            Some(f) => {
                proof {
                    lemma_tracks_map_dom(store.current.tracks@, filename@);
                    let i = choose|i: int|
                        0 <= i < store.current.tracks@.len() && (#[trigger] store.current.tracks@[
                            i
                        ].key()) == filename@;
                    assert(spec_is_audio_name(store.current.tracks@[i].key()));
                }
                Some(f.clone())
            },
            None => None,
        };
        handle.release_read();
        r
    }

    /// Atomically install `album` as the published catalog: the one
    /// exclusive step, a pointer-sized swap of a fully built catalog.
    pub fn replace(&self, album: MusicAlbum)
        requires
            album.wf(),
    {
        let (_prior, handle) = self.lock.acquire_write();
        handle.release_write(CatalogStore::new(album));
    }
}

} // verus!
