//! The listing, filtering and download-acceptance stages.

use looptober::errors::RemoteError;
use looptober::fetcher::accept_download;
use looptober::filter::is_audio_track;
use looptober::listing::ListPage;
use looptober::listing::ListStep;
use looptober::listing::PaginatedLister;
use looptober::listing::RemoteEntry;

fn file_entry(name: &str) -> RemoteEntry {
    RemoteEntry::File {
        name: name.to_string(),
        path: format!("/Looptober/2022/{}", name),
        size: 3,
    }
}

fn entry_name(entry: &RemoteEntry) -> String {
    match entry {
        RemoteEntry::File { name, .. } => name.clone(),
        RemoteEntry::Folder { path } => path.clone(),
        RemoteEntry::Other => String::new(),
    }
}

/// Drive a lister over prepared continuation pages, recording what it
/// yields and how many continuation calls it makes.
fn drain(lister: &mut PaginatedLister, mut continuations: Vec<ListPage>) -> (Vec<String>, Vec<String>) {
    let mut yielded = Vec::new();
    let mut cursors = Vec::new();
    loop {
        match lister.next() {
            ListStep::Entry(entry) => yielded.push(entry_name(&entry)),
            ListStep::Continue(cursor) => {
                cursors.push(cursor);
                assert!(!continuations.is_empty(), "lister asked for more pages than prepared");
                lister.feed(continuations.remove(0));
            }
            ListStep::Done => break,
        }
    }
    assert!(continuations.is_empty(), "lister stopped before consuming every page");
    (yielded, cursors)
}

#[test]
fn lister_yields_pages_in_order() {
    let first = ListPage {
        entries: vec![file_entry("a.mp3"), file_entry("b.mp3")],
        cursor: "cursor-1".to_string(),
        has_more: true,
    };
    let second = ListPage {
        entries: vec![file_entry("c.mp3"), file_entry("d.mp3")],
        cursor: "cursor-2".to_string(),
        has_more: true,
    };
    let third = ListPage {
        entries: vec![file_entry("e.mp3")],
        cursor: "unused".to_string(),
        has_more: false,
    };
    let mut lister = PaginatedLister::start(first);
    let (yielded, cursors) = drain(&mut lister, vec![second, third]);
    assert_eq!(yielded, vec!["a.mp3", "b.mp3", "c.mp3", "d.mp3", "e.mp3"]);
    assert_eq!(cursors, vec!["cursor-1", "cursor-2"]);
}

#[test]
fn lister_single_page_terminates() {
    let only = ListPage {
        entries: vec![file_entry("a.mp3")],
        cursor: "never-used".to_string(),
        has_more: false,
    };
    let mut lister = PaginatedLister::start(only);
    let (yielded, cursors) = drain(&mut lister, vec![]);
    assert_eq!(yielded, vec!["a.mp3"]);
    assert!(cursors.is_empty());
    assert!(matches!(lister.next(), ListStep::Done));
}

#[test]
fn lister_continues_past_empty_page() {
    let first = ListPage {
        entries: vec![],
        cursor: "cursor-1".to_string(),
        has_more: true,
    };
    let second = ListPage {
        entries: vec![file_entry("a.mp3")],
        cursor: "unused".to_string(),
        has_more: false,
    };
    let mut lister = PaginatedLister::start(first);
    let (yielded, cursors) = drain(&mut lister, vec![second]);
    assert_eq!(yielded, vec!["a.mp3"]);
    assert_eq!(cursors, vec!["cursor-1"]);
}

#[test]
fn filter_accepts_audio_files() {
    assert!(is_audio_track(&file_entry("song.mp3")));
    assert!(is_audio_track(&file_entry("song.m4a")));
    assert!(is_audio_track(&file_entry("song.ogg")));
    assert!(is_audio_track(&file_entry(".ogg")));
    assert!(is_audio_track(&file_entry("looptober-jaycie-2022-10-01.mp3")));
}

#[test]
fn filter_rejects_other_kinds_and_names() {
    assert!(!is_audio_track(&RemoteEntry::Folder {
        path: "/Looptober/2022/nested.mp3".to_string(),
    }));
    assert!(!is_audio_track(&RemoteEntry::Other));
    assert!(!is_audio_track(&file_entry("notes.txt")));
    assert!(!is_audio_track(&file_entry("song.MP3")));
    assert!(!is_audio_track(&file_entry("mp3")));
    assert!(!is_audio_track(&file_entry("song.mp33")));
    assert!(!is_audio_track(&file_entry("songmp3")));
    assert!(!is_audio_track(&file_entry("")));
}

#[test]
fn accept_download_requires_a_body() {
    let r = accept_download(10, None);
    assert!(matches!(r, Err(RemoteError::Download)));
}

#[test]
fn accept_download_keeps_bytes_and_compares_sizes() {
    let matching = accept_download(3, Some(vec![1, 2, 3])).unwrap();
    assert_eq!(matching.body, vec![1, 2, 3]);
    assert!(matching.size_matches);

    let differing = accept_download(9, Some(vec![1, 2, 3])).unwrap();
    assert_eq!(differing.body, vec![1, 2, 3]);
    assert!(!differing.size_matches);
}
