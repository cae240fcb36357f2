//! The error taxonomy of the synchronization subsystem.

use vstd::prelude::*;

verus! {

/// What went wrong during a synchronization cycle.
///
/// `Auth`: no credentials could be obtained, fatal at process startup since
/// no catalog can be built.  `List`: a listing page or continuation call
/// failed mid-traversal.  `Download`: fetching a selected entry's content
/// failed.  Each aborts the cycle it occurs in; the previously published
/// catalog stays untouched.
#[derive(Clone, Copy, Debug, PartialEq, Eq, Structural)]
pub enum RemoteError {
    Auth,
    List,
    Download,
}

} // verus!
