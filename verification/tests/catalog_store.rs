//! The catalog builder, the store, the refresh cycle and serving.

use looptober::catalog::build;
use looptober::catalog::MusicAlbum;
use looptober::catalog::MusicFile;
use looptober::coordinator::refresh_music;
use looptober::errors::RemoteError;
use looptober::listing::RemoteEntry;
use looptober::naming::music_filename;
use looptober::coordinator::refresh_shared;
use looptober::serve::music_for_user;
use looptober::serve::music_for_user_by_format;
use looptober::serve::MusicFileResponse;
use looptober::store::CatalogStore;
use looptober::store::SharedCatalogStore;

fn audio_pair(name: &str, body: Vec<u8>) -> (RemoteEntry, Vec<u8>) {
    let entry = RemoteEntry::File {
        name: name.to_string(),
        path: format!("/Looptober/2022/{}", name),
        size: body.len() as u64,
    };
    (entry, body)
}

#[test]
fn music_file_new_keeps_name_and_bytes() {
    let file = MusicFile::new(vec![7, 8], "song.mp3");
    assert_eq!(file.filename, "song.mp3");
    assert_eq!(file.body, vec![7, 8]);
}

#[test]
fn music_file_clone_keeps_name_and_bytes() {
    let file = MusicFile::new(vec![7, 8], "song.mp3");
    let copy = file.clone();
    assert_eq!(copy.filename, "song.mp3");
    assert_eq!(copy.body, vec![7, 8]);
}

#[test]
fn build_keys_tracks_by_entry_name() {
    let pairs = vec![audio_pair("a.mp3", vec![1]), audio_pair("b.ogg", vec![2])];
    let (album, downloaded) = build(&pairs);
    assert_eq!(album.get(&"a.mp3".to_string()).unwrap().body, vec![1]);
    assert_eq!(album.get(&"b.ogg".to_string()).unwrap().body, vec![2]);
    assert!(album.get(&"c.mp3".to_string()).is_none());
    assert_eq!(album.len(), 2);
    assert_eq!(downloaded.len(), 2);
}

#[test]
fn build_resolves_duplicates_last_write_wins() {
    let pairs = vec![
        audio_pair("dup.mp3", vec![1]),
        audio_pair("other.mp3", vec![9]),
        audio_pair("dup.mp3", vec![2]),
    ];
    let (album, downloaded) = build(&pairs);
    assert_eq!(album.get(&"dup.mp3".to_string()).unwrap().body, vec![2]);
    assert_eq!(album.len(), 2);
    // The ordered list retains the overwritten track for diagnostics.
    assert_eq!(downloaded.len(), 3);
    assert_eq!(downloaded[0].body, vec![1]);
    assert_eq!(downloaded[2].body, vec![2]);
}

#[test]
fn build_of_nothing_is_empty() {
    let (album, downloaded) = build(&vec![]);
    assert_eq!(album.len(), 0);
    assert!(downloaded.is_empty());
    assert!(album.get(&"a.mp3".to_string()).is_none());
}

#[test]
fn response_carries_bytes_and_disposition() {
    let file = MusicFile::new(vec![4, 5, 6], "song.mp3");
    let response = MusicFileResponse::new(&file);
    assert_eq!(response.body, vec![4, 5, 6]);
    assert_eq!(response.content_disposition, "inline; filename=\"song.mp3\"");
}

#[test]
fn music_filename_renders_the_key() {
    assert_eq!(music_filename(2022, 10, 1, "mp3"), "looptober-jaycie-2022-10-01.mp3");
}

#[test]
fn music_filename_zero_pads_short_numbers() {
    assert_eq!(music_filename(5, 3, 7, "ogg"), "looptober-jaycie-0005-03-07.ogg");
    assert_eq!(music_filename(0, 0, 0, "m4a"), "looptober-jaycie-0000-00-00.m4a");
}

#[test]
fn music_filename_keeps_wide_numbers_whole() {
    assert_eq!(music_filename(12345, 10, 1, "mp3"), "looptober-jaycie-12345-10-01.mp3");
    assert_eq!(music_filename(2022, 100, 1, "mp3"), "looptober-jaycie-2022-100-01.mp3");
}

#[test]
fn refresh_round_trip_serves_the_downloaded_bytes() {
    let body = vec![0xf0, 0x9f, 0x8e, 0xb5];
    let mut store = CatalogStore::new(MusicAlbum::empty());
    let outcome = refresh_music(
        &mut store,
        Ok(vec![audio_pair("looptober-jaycie-2022-10-01.mp3", body.clone())]),
    );
    assert_eq!(outcome.unwrap().track_count, 1);

    let fetched = store.get(&"looptober-jaycie-2022-10-01.mp3".to_string()).unwrap();
    assert_eq!(fetched.body, body);

    let served = music_for_user(&store, 2022, 10, 1).unwrap();
    assert_eq!(served.body, body);
    assert_eq!(
        served.content_disposition,
        "inline; filename=\"looptober-jaycie-2022-10-01.mp3\""
    );
}

#[test]
fn serving_by_format_builds_the_requested_key() {
    let mut store = CatalogStore::new(MusicAlbum::empty());
    refresh_music(
        &mut store,
        Ok(vec![audio_pair("looptober-jaycie-2022-10-02.ogg", vec![1, 2])]),
    )
    .unwrap();

    let served = music_for_user_by_format(&store, 2022, 10, 2, "ogg").unwrap();
    assert_eq!(served.body, vec![1, 2]);
    assert!(music_for_user_by_format(&store, 2022, 10, 2, "mp3").is_none());
    assert!(music_for_user(&store, 2022, 10, 2).is_none());
}

#[test]
fn refresh_failure_leaves_previous_catalog_untouched() {
    let mut store = CatalogStore::new(MusicAlbum::empty());
    refresh_music(
        &mut store,
        Ok(vec![audio_pair("a.mp3", vec![1]), audio_pair("b.mp3", vec![2])]),
    )
    .unwrap();

    let failed = refresh_music(&mut store, Err(RemoteError::List));
    assert!(matches!(failed, Err(RemoteError::List)));

    assert_eq!(store.get(&"a.mp3".to_string()).unwrap().body, vec![1]);
    assert_eq!(store.get(&"b.mp3".to_string()).unwrap().body, vec![2]);
    assert_eq!(store.len(), 2);
}

#[test]
fn replace_swaps_the_catalog_whole() {
    let (first, _) = build(&vec![audio_pair("a.mp3", vec![1]), audio_pair("b.mp3", vec![2])]);
    let mut store = CatalogStore::new(first);

    let (second, _) = build(&vec![audio_pair("c.mp3", vec![3])]);
    store.replace(second);

    assert_eq!(store.get(&"c.mp3".to_string()).unwrap().body, vec![3]);
    assert!(store.get(&"a.mp3".to_string()).is_none());
    assert!(store.get(&"b.mp3".to_string()).is_none());
    assert_eq!(store.len(), 1);
}

#[test]
fn refresh_counts_distinct_filenames() {
    let mut store = CatalogStore::new(MusicAlbum::empty());
    let outcome = refresh_music(
        &mut store,
        Ok(vec![
            audio_pair("dup.mp3", vec![1]),
            audio_pair("solo.mp3", vec![2]),
            audio_pair("dup.mp3", vec![3]),
        ]),
    );
    assert_eq!(outcome.unwrap().track_count, 2);
    assert_eq!(store.get(&"dup.mp3".to_string()).unwrap().body, vec![3]);
}

#[test]
fn shared_store_round_trip() {
    let store = SharedCatalogStore::new(MusicAlbum::empty());
    assert!(store.get(&"a.mp3".to_string()).is_none());

    let outcome = refresh_shared(
        &store,
        Ok(vec![audio_pair("a.mp3", vec![1]), audio_pair("b.mp3", vec![2])]),
    );
    assert_eq!(outcome.unwrap().track_count, 2);
    assert_eq!(store.get(&"a.mp3".to_string()).unwrap().body, vec![1]);
    assert_eq!(store.get(&"b.mp3".to_string()).unwrap().body, vec![2]);
}

#[test]
fn shared_store_failed_refresh_keeps_previous_catalog() {
    let store = SharedCatalogStore::new(MusicAlbum::empty());
    refresh_shared(&store, Ok(vec![audio_pair("a.mp3", vec![1])])).unwrap();

    let failed = refresh_shared(&store, Err(RemoteError::List));
    assert!(matches!(failed, Err(RemoteError::List)));
    assert_eq!(store.get(&"a.mp3".to_string()).unwrap().body, vec![1]);
}

#[test]
fn shared_store_replace_swaps_whole() {
    let (first, _) = build(&vec![audio_pair("a.mp3", vec![1])]);
    let store = SharedCatalogStore::new(first);

    let (second, _) = build(&vec![audio_pair("b.mp3", vec![2])]);
    store.replace(second);

    assert!(store.get(&"a.mp3".to_string()).is_none());
    assert_eq!(store.get(&"b.mp3".to_string()).unwrap().body, vec![2]);
}

#[test]
fn refresh_propagates_each_error_kind() {
    let mut store = CatalogStore::new(MusicAlbum::empty());
    assert!(matches!(
        refresh_music(&mut store, Err(RemoteError::Auth)),
        Err(RemoteError::Auth)
    ));
    assert!(matches!(
        refresh_music(&mut store, Err(RemoteError::Download)),
        Err(RemoteError::Download)
    ));
    assert!(matches!(
        refresh_music(&mut store, Err(RemoteError::List)),
        Err(RemoteError::List)
    ));
}
