//! Serving a published track by its date-derived key.
//!
//! The HTTP collaborator resolves a requested date to the catalog key of
//! the naming convention and reads the currently published catalog; the
//! response carries the track's bytes and its content-disposition header
//! value.

use vstd::prelude::*;

use crate::catalog::copy_bytes;
use crate::catalog::MusicFile;
use crate::naming::music_filename;
use crate::naming::spec_music_key;
use crate::store::CatalogStore;

verus! {

/// The header value announcing an inline attachment under the track's
/// filename.
pub open spec fn spec_content_disposition(filename: Seq<char>) -> Seq<char> {
    "inline; filename=\""@ + filename + "\""@
}

/// One served track: its bytes and its content-disposition header value.
pub struct MusicFileResponse {
    pub body: Vec<u8>,
    pub content_disposition: String,
}

impl MusicFileResponse {
    /// Build the response for one track.
    pub fn new(music_file: &MusicFile) -> (r: Self)
        ensures
            r.body@ == music_file.bytes(),
            r.content_disposition@ == spec_content_disposition(music_file.key()),
    {
        let mut content_disposition = "inline; filename=\"".to_owned();
        content_disposition.append(music_file.filename.as_str());
        content_disposition.append("\"");
        proof {
            assert(content_disposition@ =~= spec_content_disposition(music_file.key()));
        }
        MusicFileResponse { body: copy_bytes(&music_file.body), content_disposition }
    }
}

/// Serve the track of the given date under the default `.mp3` extension:
/// the response exists exactly when the published catalog holds the key,
/// and carries that track's bytes.
pub fn music_for_user(store: &CatalogStore, year: usize, month: usize, day: usize) -> (r: Option<
    MusicFileResponse,
>)
    requires
        store.wf(),
    ensures
        ({
            let key = spec_music_key(year as nat, month as nat, day as nat, "mp3"@);
            match r {
                Some(resp) => {
                    &&& store@.contains_key(key)
                    &&& resp.body@ == store@[key]
                    &&& resp.content_disposition@ == spec_content_disposition(key)
                },
                None => !store@.contains_key(key),
            }
        }),
{
    let filename = music_filename(year, month, day, "mp3");
    match store.get(&filename) {
        Some(music_file) => Some(MusicFileResponse::new(music_file)),
        None => None,
    }
}

/// Serve the track of the given date under the requested extension: the
/// response exists exactly when the published catalog holds the key, and
/// carries that track's bytes.
pub fn music_for_user_by_format(
    store: &CatalogStore,
    year: usize,
    month: usize,
    day: usize,
    format: &str,
) -> (r: Option<MusicFileResponse>)
    requires
        store.wf(),
    ensures
        ({
            let key = spec_music_key(year as nat, month as nat, day as nat, format@);
            match r {
                Some(resp) => {
                    &&& store@.contains_key(key)
                    &&& resp.body@ == store@[key]
                    &&& resp.content_disposition@ == spec_content_disposition(key)
                },
                None => !store@.contains_key(key),
            }
        }),
{
    let filename = music_filename(year, month, day, format);
    match store.get(&filename) {
        Some(music_file) => Some(MusicFileResponse::new(music_file)),
        None => None,
    }
}

} // verus!
