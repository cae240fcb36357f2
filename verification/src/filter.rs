//! Selection of audio entries from the raw listing.
//!
//! The catalog holds audio files only.  An entry qualifies exactly when it
//! is an ordinary file and its display name carries one of the fixed audio
//! extensions `.mp3`, `.m4a` or `.ogg` as a suffix, compared case
//! sensitively.  Folders and unrecognized entries never qualify.

use vstd::prelude::*;

use crate::listing::RemoteEntry;

verus! {

/// `suffix` stands at the very end of `s`.
pub open spec fn spec_ends_with(s: Seq<char>, suffix: Seq<char>) -> bool {
    suffix.len() <= s.len() && s.subrange(s.len() - suffix.len(), s.len() as int) == suffix
}

/// The name carries one of the accepted audio extensions as a suffix.
pub open spec fn spec_is_audio_name(name: Seq<char>) -> bool {
    ||| spec_ends_with(name, ".mp3"@)
    ||| spec_ends_with(name, ".m4a"@)
    ||| spec_ends_with(name, ".ogg"@)
}

/// An entry belongs in the catalog: an ordinary file whose name carries an
/// accepted audio extension.
pub open spec fn spec_is_audio_track(entry: RemoteEntry) -> bool {
    match entry {
        RemoteEntry::File { name, .. } => spec_is_audio_name(name@),
        _ => false,
    }
}

/// Decide whether a name ends in one of the accepted audio extensions.
pub fn has_audio_extension(name: &str) -> (r: bool)
    ensures
        r == spec_is_audio_name(name@),
{
    proof {
        reveal_strlit(".mp3");
        reveal_strlit(".m4a");
        reveal_strlit(".ogg");
    }
    let n = name.unicode_len();
    if n < 4 {
        return false;
    }
    let c0 = name.get_char(n - 4);
    let c1 = name.get_char(n - 3);
    let c2 = name.get_char(n - 2);
    let c3 = name.get_char(n - 1);
    let hit = c0 == '.' && ((c1 == 'm' && c2 == 'p' && c3 == '3') || (c1 == 'm' && c2 == '4' && c3
        == 'a') || (c1 == 'o' && c2 == 'g' && c3 == 'g'));
    proof {
        let s = name@;
        let l = s.len() as int;
        let tail = s.subrange(l - 4, l);
        assert(tail[0] == c0 && tail[1] == c1 && tail[2] == c2 && tail[3] == c3);
        if hit {
            if c1 == 'm' && c2 == 'p' {
                assert(tail =~= ".mp3"@);
            } else if c1 == 'm' && c2 == '4' {
                assert(tail =~= ".m4a"@);
            } else {
                assert(tail =~= ".ogg"@);
            }
        } else {
            assert(!spec_is_audio_name(s)) by {
                if spec_ends_with(s, ".mp3"@) {
                    assert(tail == ".mp3"@);
                } else if spec_ends_with(s, ".m4a"@) {
                    assert(tail == ".m4a"@);
                } else if spec_ends_with(s, ".ogg"@) {
                    assert(tail == ".ogg"@);
                }
            }
        }
    }
    hit
}

/// Pure predicate over listing entries: keep exactly the audio files.
pub fn is_audio_track(entry: &RemoteEntry) -> (r: bool)
    ensures
        r == spec_is_audio_track(*entry),
{
    match entry {
        RemoteEntry::File { name, .. } => has_audio_extension(name.as_str()),
        _ => false,
    }
}

} // verus!
