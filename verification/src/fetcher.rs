//! Acceptance of downloaded track content.
//!
//! The transport collaborator downloads an entry's payload and hands the
//! result in as a plain optional byte string.  [`accept_download`] decides
//! what enters the pipeline: a missing content body fails the cycle, and a
//! size differing from the entry's reported size is noted purely for
//! diagnostics — remote metadata size and transferred size may legitimately
//! differ.

use vstd::prelude::*;

use crate::errors::RemoteError;

verus! {

/// The accepted content of one download, with the diagnostic verdict of the
/// size comparison.
pub struct DownloadedContent {
    pub body: Vec<u8>,
    pub size_matches: bool,
}

/// Accept the outcome of one download: the payload if the transport
/// produced a content body, and `RemoteError::Download` otherwise.
pub fn accept_download(expected_size: u64, body: Option<Vec<u8>>) -> (r: Result<
    DownloadedContent,
    RemoteError,
>)
    ensures
        match r {
            Ok(c) => {
                &&& body matches Some(b) && c.body@ == b@
                &&& c.size_matches <==> c.body@.len() == expected_size
            },
            Err(e) => body is None && e == RemoteError::Download,
        },
{
    match body {
        Some(b) => {
            let size_matches = b.len() as u64 == expected_size;
            Ok(DownloadedContent { body: b, size_matches })
        },
        None => Err(RemoteError::Download),
    }
}

} // verus!
