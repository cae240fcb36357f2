//! One full synchronization cycle and the publication of its result.
//!
//! The embedding program drives the listing and download collaborators and
//! hands the coordinator either the `(entry, bytes)` pairs of a completed
//! traversal or the error that aborted it.  On success a catalog is built
//! from the pairs and published; on any failure nothing is built, nothing
//! is published, and the previously published catalog is left completely
//! unaffected.

use vstd::prelude::*;

use crate::catalog::build;
use crate::catalog::catalog_map;
use crate::catalog::lemma_last_write_wins;
use crate::errors::RemoteError;
use crate::filter::spec_is_audio_track;
use crate::listing::RemoteEntry;
use crate::store::CatalogStore;
use crate::store::SharedCatalogStore;

verus! {

/// Summary of a successful refresh cycle.
#[derive(Clone, Copy, Debug)]
pub struct RefreshSummary {
    pub track_count: usize,
}

/// Complete one refresh cycle against the store.
///
/// `fetched` is the outcome of the cycle's listing and download phase:
/// the filtered audio entries with their downloaded bytes, or the error
/// that aborted the traversal.  On success the catalog built from the
/// pairs is installed and the summary counts its tracks; on failure the
/// same error is handed back and the store is untouched.
pub fn refresh_music(
    store: &mut CatalogStore,
    fetched: Result<Vec<(RemoteEntry, Vec<u8>)>, RemoteError>,
) -> (r: Result<RefreshSummary, RemoteError>)
    requires
        old(store).wf(),
        fetched matches Ok(pairs) ==> forall|i: int|
            0 <= i < pairs@.len() ==> spec_is_audio_track((#[trigger] pairs@[i]).0),
    ensures
        final(store).wf(),
        match fetched {
            Ok(pairs) => {
                &&& r matches Ok(s)
                &&& final(store)@ == catalog_map(pairs@)
                &&& s.track_count == final(store)@.dom().len()
            },
            Err(e) => r == Err::<RefreshSummary, RemoteError>(e) && *final(store) == *old(store),
        },
{
    match fetched {
        Ok(pairs) => {
            let (album, _overwritten_included) = build(&pairs);
            let track_count = album.len();
            store.replace(album);
            Ok(RefreshSummary { track_count })
        },
        Err(e) => Err(e),
    }
}

/// Round-trip: after a successful refresh over `pairs`, a lookup of an
/// entry's name is answered with exactly the bytes downloaded for the last
/// pair of that name — what went up through the cycle comes back out of the
/// published catalog.
pub proof fn lemma_refresh_round_trip(
    store: CatalogStore,
    pairs: Seq<(RemoteEntry, Vec<u8>)>,
    i: int,
)
    requires
        store@ == catalog_map(pairs),
        0 <= i < pairs.len(),
        forall|j: int|
            i < j < pairs.len() ==> (#[trigger] pairs[j].0).spec_name() != pairs[i].0.spec_name(),
    ensures
        store@.contains_key(pairs[i].0.spec_name()),
        store@[pairs[i].0.spec_name()] == pairs[i].1@,
{
    lemma_last_write_wins(pairs, i);
}

/// Complete one refresh cycle against the shared store.
///
/// As with [`refresh_music`], `fetched` is the outcome of the listing and
/// download phase.  The whole aggregation of the new catalog runs before
/// the exclusive section; only the swap of the finished catalog happens
/// under the lock, so concurrent readers wait at most for that one step.
/// On failure nothing is built and nothing is published.
pub fn refresh_shared(
    store: &SharedCatalogStore,
    fetched: Result<Vec<(RemoteEntry, Vec<u8>)>, RemoteError>,
) -> (r: Result<RefreshSummary, RemoteError>)
    requires
        fetched matches Ok(pairs) ==> forall|i: int|
            0 <= i < pairs@.len() ==> spec_is_audio_track((#[trigger] pairs@[i]).0),
    ensures
        match fetched {
            Ok(pairs) => r matches Ok(s) && s.track_count == catalog_map(pairs@).dom().len(),
            Err(e) => r == Err::<RefreshSummary, RemoteError>(e),
        },
{
    match fetched {
        Ok(pairs) => {
            let (album, _overwritten_included) = build(&pairs);
            let track_count = album.len();
            store.replace(album);
            Ok(RefreshSummary { track_count })
        },
        Err(e) => Err(e),
    }
}

} // verus!
