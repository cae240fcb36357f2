//! Tracks and the keyed catalog built from one synchronization cycle.
//!
//! A [`MusicFile`] is a named, immutable byte-content audio item.  A
//! [`MusicAlbum`] is the catalog: a mapping from filename to track with
//! unique keys, modelled by [`tracks_map`].  [`build`] aggregates the
//! `(entry, bytes)` pairs of one cycle into an album; a filename that occurs
//! twice within one cycle is resolved last-write-wins, and the full ordered
//! list of constructed tracks — later-overwritten ones included — is handed
//! back beside the album so that collisions stay observable.

use vstd::prelude::*;

use crate::filter::spec_is_audio_name;
use crate::filter::spec_is_audio_track;
use crate::listing::RemoteEntry;

verus! {

broadcast use vstd::map::group_map_axioms, vstd::set::group_set_axioms;

/// A source of full fetches: a provider runs one complete listing and
/// download pass and hands back the catalog it produced together with the
/// ordered list of every track constructed on the way.  Implemented by the
/// embedding program's transport collaborator.
pub trait MusicProvider {
    fn fetch_music_files(&self) -> (MusicAlbum, Vec<MusicFile>);
}

/// A named, byte-content audio item resolved from one remote file entry.
pub struct MusicFile {
    pub filename: String,
    pub body: Vec<u8>,
}

impl MusicFile {
    /// The catalog key of this track.
    pub open spec fn key(self) -> Seq<char> {
        self.filename@
    }

    /// The byte content of this track.
    pub open spec fn bytes(self) -> Seq<u8> {
        self.body@
    }

    /// Construct a track from downloaded bytes and the entry's display name.
    pub fn new(body: Vec<u8>, filename: &str) -> (r: Self)
        ensures
            r.key() == filename@,
            r.bytes() == body@,
    {
        MusicFile { body, filename: filename.to_owned() }
    }
}

/// Copy a byte string.
pub(crate) fn copy_bytes(src: &Vec<u8>) -> (r: Vec<u8>)
    ensures
        r@ == src@,
{
    let mut r: Vec<u8> = Vec::new();
    let mut i: usize = 0;
    while i < src.len()
        invariant
            i <= src@.len(),
            r@ == src@.take(i as int),
        decreases src@.len() - i,
    {
        r.push(src[i]);
        i = i + 1;
        proof {
            assert(r@ =~= src@.take(i as int));
        }
    }
    proof {
        assert(src@.take(src@.len() as int) =~= src@);
    }
    r
}

impl Clone for MusicFile {
    /// A clone carries the same key and the same bytes.
    fn clone(&self) -> (r: Self)
        ensures
            r.key() == self.key(),
            r.bytes() == self.bytes(),
    {
        MusicFile { filename: self.filename.clone(), body: copy_bytes(&self.body) }
    }
}

/// No two tracks of the sequence share a key.
pub open spec fn unique_keys(s: Seq<MusicFile>) -> bool {
    forall|i: int, j: int|
        0 <= i < j < s.len() ==> (#[trigger] s[i].key()) != (#[trigger] s[j].key())
}

/// Every track of the sequence carries an accepted audio extension.
pub open spec fn audio_keys(s: Seq<MusicFile>) -> bool {
    forall|i: int| 0 <= i < s.len() ==> spec_is_audio_name((#[trigger] s[i]).key())
}

/// The keyed view of a sequence of tracks: filename to bytes, a later track
/// overwriting an earlier one of the same key.
pub open spec fn tracks_map(s: Seq<MusicFile>) -> Map<Seq<char>, Seq<u8>>
    decreases s.len(),
{
    if s.len() == 0 {
        Map::empty()
    } else {
        tracks_map(s.drop_last()).insert(s.last().key(), s.last().bytes())
    }
}

/// The keyed view of the `(entry, bytes)` pairs of one cycle: each pair
/// contributes its entry's name and its downloaded bytes, a later pair
/// overwriting an earlier one of the same name.
pub open spec fn catalog_map(pairs: Seq<(RemoteEntry, Vec<u8>)>) -> Map<Seq<char>, Seq<u8>>
    decreases pairs.len(),
{
    if pairs.len() == 0 {
        Map::empty()
    } else {
        catalog_map(pairs.drop_last()).insert(
            pairs.last().0.spec_name(),
            pairs.last().1@,
        )
    }
}

/// A key is in the keyed view exactly when some track of the sequence
/// carries it; the view's domain is finite.
pub proof fn lemma_tracks_map_dom(s: Seq<MusicFile>, k: Seq<char>)
    ensures
        tracks_map(s).dom().finite(),
        tracks_map(s).contains_key(k) <==> exists|i: int|
            0 <= i < s.len() && (#[trigger] s[i].key()) == k,
    decreases s.len(),
{
    if s.len() == 0 {
    } else {
        let d = s.drop_last();
        lemma_tracks_map_dom(d, k);
        if s.last().key() == k {
            assert(s[s.len() - 1].key() == k);
        } else {
            if tracks_map(s).contains_key(k) {
                let i = choose|i: int| 0 <= i < d.len() && (#[trigger] d[i].key()) == k;
                assert(s[i].key() == k);
            }
            if exists|i: int| 0 <= i < s.len() && (#[trigger] s[i].key()) == k {
                let i = choose|i: int| 0 <= i < s.len() && (#[trigger] s[i].key()) == k;
                assert(i < s.len() - 1);
                assert(d[i].key() == k);
            }
        }
    }
}

/// The keyed view maps a key to the bytes of the last track that carries it.
pub proof fn lemma_tracks_map_last(s: Seq<MusicFile>, i: int)
    requires
        0 <= i < s.len(),
        forall|j: int| i < j < s.len() ==> (#[trigger] s[j].key()) != s[i].key(),
    ensures
        tracks_map(s).contains_key(s[i].key()),
        tracks_map(s)[s[i].key()] == s[i].bytes(),
    decreases s.len(),
{
    if i == s.len() - 1 {
    } else {
        let d = s.drop_last();
        assert(d[i] == s[i]);
        assert forall|j: int| i < j < d.len() implies (#[trigger] d[j].key()) != d[i].key() by {
            assert(d[j] == s[j]);
        }
        lemma_tracks_map_last(d, i);
        assert(s.last().key() != s[i].key());
    }
}

/// With unique keys, the keyed view holds exactly one entry per track.
pub proof fn lemma_tracks_map_len(s: Seq<MusicFile>)
    requires
        unique_keys(s),
    ensures
        tracks_map(s).dom().finite(),
        tracks_map(s).dom().len() == s.len(),
    decreases s.len(),
{
    if s.len() == 0 {
        lemma_tracks_map_dom(s, Seq::empty());
    } else {
        let d = s.drop_last();
        assert forall|i: int, j: int|
            0 <= i < j < d.len() implies (#[trigger] d[i].key()) != (#[trigger] d[j].key()) by {
            assert(d[i] == s[i] && d[j] == s[j]);
        }
        lemma_tracks_map_len(d);
        lemma_tracks_map_dom(d, s.last().key());
        assert(!tracks_map(d).contains_key(s.last().key())) by {
            if exists|i: int| 0 <= i < d.len() && (#[trigger] d[i].key()) == s.last().key() {
                let i = choose|i: int| 0 <= i < d.len() && (#[trigger] d[i].key()) == s.last().key();
                assert(s[i].key() == s[s.len() - 1].key());
            }
        }
        assert(tracks_map(s).dom() =~= tracks_map(d).dom().insert(s.last().key()));
    }
}

/// Overwriting the one track that carries a key leaves the keyed view as an
/// insert of the replacement's bytes at that key.
pub proof fn lemma_tracks_map_update(s: Seq<MusicFile>, j: int, f: MusicFile)
    requires
        unique_keys(s),
        0 <= j < s.len(),
        f.key() == s[j].key(),
    ensures
        unique_keys(s.update(j, f)),
        tracks_map(s.update(j, f)) == tracks_map(s).insert(f.key(), f.bytes()),
{
    let t = s.update(j, f);
    assert forall|i: int| 0 <= i < t.len() implies (#[trigger] t[i].key()) == s[i].key() by {}
    let m1 = tracks_map(t);
    let m2 = tracks_map(s).insert(f.key(), f.bytes());
    assert forall|k: Seq<char>| m1.contains_key(k) <==> m2.contains_key(k) by {
        lemma_tracks_map_dom(t, k);
        lemma_tracks_map_dom(s, k);
        if m1.contains_key(k) {
            let i = choose|i: int| 0 <= i < t.len() && (#[trigger] t[i].key()) == k;
            assert(s[i].key() == k);
        }
        if m2.contains_key(k) && k != f.key() {
            let i = choose|i: int| 0 <= i < s.len() && (#[trigger] s[i].key()) == k;
            assert(t[i].key() == k);
        }
        if k == f.key() {
            assert(t[j].key() == k);
        }
    }
    assert forall|k: Seq<char>| m1.contains_key(k) implies m1[k] == m2[k] by {
        if k == f.key() {
            assert forall|j2: int| j < j2 < t.len() implies (#[trigger] t[j2].key()) != t[j].key() by {}
            lemma_tracks_map_last(t, j);
        } else {
            lemma_tracks_map_dom(t, k);
            let i = choose|i: int| 0 <= i < t.len() && (#[trigger] t[i].key()) == k;
            assert(i != j);
            assert(s[i].key() == k);
            assert forall|j2: int| i < j2 < s.len() implies (#[trigger] s[j2].key()) != s[i].key() by {}
            assert forall|j2: int| i < j2 < t.len() implies (#[trigger] t[j2].key()) != t[i].key() by {}
            lemma_tracks_map_last(s, i);
            lemma_tracks_map_last(t, i);
        }
    }
    assert(m1 =~= m2);
}

/// Appending a track turns the keyed view into an insert of its bytes.
pub proof fn lemma_tracks_map_push(s: Seq<MusicFile>, f: MusicFile)
    ensures
        tracks_map(s.push(f)) == tracks_map(s).insert(f.key(), f.bytes()),
{
    assert(s.push(f).drop_last() =~= s);
    assert(s.push(f).last() == f);
}

/// Duplicate filenames resolve last-write-wins: when the pair at index `i`
/// is the last one in traversal order whose entry resolves to its name, the
/// catalog of the cycle maps that name to exactly that pair's bytes.
pub proof fn lemma_last_write_wins(pairs: Seq<(RemoteEntry, Vec<u8>)>, i: int)
    requires
        0 <= i < pairs.len(),
        forall|j: int|
            i < j < pairs.len() ==> (#[trigger] pairs[j].0).spec_name() != pairs[i].0.spec_name(),
    ensures
        catalog_map(pairs).contains_key(pairs[i].0.spec_name()),
        catalog_map(pairs)[pairs[i].0.spec_name()] == pairs[i].1@,
    decreases pairs.len(),
{
    if i == pairs.len() - 1 {
    } else {
        let d = pairs.drop_last();
        assert(d[i] == pairs[i]);
        assert forall|j: int|
            i < j < d.len() implies (#[trigger] d[j].0).spec_name() != d[i].0.spec_name() by {
            assert(d[j] == pairs[j]);
        }
        lemma_last_write_wins(d, i);
        assert(pairs.last().0.spec_name() != pairs[i].0.spec_name());
    }
}

/// The catalog of one synchronization cycle: filename to track, keys unique,
/// replaced as a whole and never mutated in place.
pub struct MusicAlbum {
    pub tracks: Vec<MusicFile>,
}

impl View for MusicAlbum {
    type V = Map<Seq<char>, Seq<u8>>;

    open spec fn view(&self) -> Map<Seq<char>, Seq<u8>> {
        tracks_map(self.tracks@)
    }
}

impl MusicAlbum {
    /// Keys are unique and every key carries an accepted audio extension:
    /// malformed or non-audio entries never enter a catalog.
    pub open spec fn wf(self) -> bool {
        unique_keys(self.tracks@) && audio_keys(self.tracks@)
    }

    /// An empty catalog.
    pub fn empty() -> (r: Self)
        ensures
            r.wf(),
            r@ == Map::<Seq<char>, Seq<u8>>::empty(),
            r.tracks@.len() == 0,
    {
        MusicAlbum { tracks: Vec::new() }
    }

    /// Look a track up by its filename key.
    pub fn get(&self, filename: &String) -> (r: Option<&MusicFile>)
        requires
            self.wf(),
        ensures
            match r {
                Some(f) => {
                    &&& self@.contains_key(filename@)
                    &&& f.key() == filename@
                    &&& f.bytes() == self@[filename@]
                },
                None => !self@.contains_key(filename@),
            },
    {
        let mut j: usize = 0;
        while j < self.tracks.len()
            invariant
                self.wf(),
                j <= self.tracks@.len(),
                forall|t: int| 0 <= t < j ==> (#[trigger] self.tracks@[t].key()) != filename@,
            decreases self.tracks@.len() - j,
        {
            if self.tracks[j].filename == *filename {
                proof {
                    assert forall|j2: int|
                        j < j2 < self.tracks@.len() implies (#[trigger] self.tracks@[j2].key())
                        != self.tracks@[j as int].key() by {}
                    lemma_tracks_map_last(self.tracks@, j as int);
                }
                return Some(&self.tracks[j]);
            }
            j = j + 1;
        }
        proof {
            lemma_tracks_map_dom(self.tracks@, filename@);
        }
        None
    }

    /// The number of tracks the catalog holds: one per key.
    pub fn len(&self) -> (n: usize)
        requires
            self.wf(),
        ensures
            n == self@.dom().len(),
    {
        proof {
            lemma_tracks_map_len(self.tracks@);
        }
        self.tracks.len()
    }
}

/// Find the slot holding the track of the given filename, if any.
fn find_track(tracks: &Vec<MusicFile>, name: &String) -> (r: Option<usize>)
    ensures
        match r {
            Some(j) => j < tracks@.len() && tracks@[j as int].key() == name@,
            None => forall|j: int| 0 <= j < tracks@.len() ==> (#[trigger] tracks@[j].key()) != name@,
        },
{
    let mut j: usize = 0;
    while j < tracks.len()
        invariant
            j <= tracks@.len(),
            forall|t: int| 0 <= t < j ==> (#[trigger] tracks@[t].key()) != name@,
        decreases tracks@.len() - j,
    {
        if tracks[j].filename == *name {
            return Some(j);
        }
        j = j + 1;
    }
    None
}

/// Aggregate the `(entry, bytes)` pairs of one cycle into a catalog.
///
/// Every pair must be an audio file entry; the catalog keys each track by
/// its entry's name, a later pair overwriting an earlier one of the same
/// name.  The full ordered list of constructed tracks — overwritten ones
/// included — is returned beside the album, so that filename collisions
/// remain observable to the caller.
pub fn build(pairs: &Vec<(RemoteEntry, Vec<u8>)>) -> (r: (MusicAlbum, Vec<MusicFile>))
    requires
        forall|i: int| 0 <= i < pairs@.len() ==> spec_is_audio_track((#[trigger] pairs@[i]).0),
    ensures
        r.0.wf(),
        r.0@ == catalog_map(pairs@),
        r.1@.len() == pairs@.len(),
        forall|j: int|
            0 <= j < pairs@.len() ==> (#[trigger] r.1@[j]).key() == pairs@[j].0.spec_name()
                && r.1@[j].bytes() == pairs@[j].1@,
{
    let mut tracks: Vec<MusicFile> = Vec::new();
    let mut downloaded: Vec<MusicFile> = Vec::new();
    let n = pairs.len();
    let mut i: usize = 0;
    while i < n
        invariant
            forall|t: int| 0 <= t < pairs@.len() ==> spec_is_audio_track((#[trigger] pairs@[t]).0),
            n == pairs@.len(),
            i <= n,
            unique_keys(tracks@),
            audio_keys(tracks@),
            tracks_map(tracks@) == catalog_map(pairs@.take(i as int)),
            downloaded@.len() == i,
            forall|j: int|
                0 <= j < i ==> (#[trigger] downloaded@[j]).key() == pairs@[j].0.spec_name()
                    && downloaded@[j].bytes() == pairs@[j].1@,
        decreases n - i,
    {
        match &pairs[i] {
            (RemoteEntry::File { name, .. }, body) => {
                let file = MusicFile::new(copy_bytes(body), name.as_str());
                proof {
                    assert(pairs@[i as int].0.spec_name() == name@);
                }
                downloaded.push(file.clone());
                let ghost tracks_before = tracks@;
                match find_track(&tracks, name) {
                    Some(j) => {
                        proof {
                            lemma_tracks_map_update(tracks_before, j as int, file);
                        }
                        tracks[j] = file;
                    },
                    None => {
                        proof {
                            lemma_tracks_map_push(tracks_before, file);
                        }
                        tracks.push(file);
                        proof {
                            assert forall|a: int, b: int|
                                0 <= a < b < tracks@.len() implies (#[trigger] tracks@[a].key())
                                != (#[trigger] tracks@[b].key()) by {
                                if b == tracks@.len() - 1 {
                                    assert(tracks@[a] == tracks_before[a]);
                                } else {
                                    assert(tracks@[a] == tracks_before[a]);
                                    assert(tracks@[b] == tracks_before[b]);
                                }
                            }
                        }
                    },
                }
                proof {
                    assert forall|t: int|
                        0 <= t < tracks@.len() implies spec_is_audio_name(
                        (#[trigger] tracks@[t]).key()) by {}
                    assert(pairs@.take(i + 1).drop_last() =~= pairs@.take(i as int));
                    assert(pairs@.take(i + 1).last() == pairs@[i as int]);
                }
            },
            _ => {
                proof {
                    assert(false);
                }
            },
        }
        i = i + 1;
    }
    proof {
        assert(pairs@.take(n as int) =~= pairs@);
    }
    (MusicAlbum { tracks }, downloaded)
}

} // verus!
