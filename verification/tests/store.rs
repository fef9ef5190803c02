use pakscan::pak::{OverlayStore, RawEntry};
use std::io::Write;

#[test]
fn freshest_wins_newer_replaces() {
    let mut store = OverlayStore::new();
    store.offer(
        "Data/Index.xdb",
        "a.pak",
        100,
        Some(String::from("old content")),
    );
    store.offer(
        "Data/Index.xdb",
        "b.pak",
        200,
        Some(String::from("new content")),
    );
    let f = store.lookup("data/index.xdb").unwrap();
    assert_eq!(f.content, "new content");
    assert_eq!(f.pak, "b.pak");
    assert_eq!(f.modified, 200);
}

#[test]
fn freshest_wins_equal_timestamp_keeps_first() {
    let mut store = OverlayStore::new();
    store.offer("Data/Index.xdb", "a.pak", 100, Some(String::from("first")));
    store.offer("Data/Index.xdb", "b.pak", 100, Some(String::from("second")));
    let f = store.lookup("data/index.xdb").unwrap();
    assert_eq!(f.content, "first");
    assert_eq!(f.pak, "a.pak");
}

#[test]
fn freshest_wins_older_is_dropped() {
    let mut store = OverlayStore::new();
    store.offer("Data/Index.xdb", "a.pak", 200, Some(String::from("newer")));
    store.offer("Data/Index.xdb", "b.pak", 100, Some(String::from("older")));
    let f = store.lookup("data/index.xdb").unwrap();
    assert_eq!(f.content, "newer");
}

#[test]
fn undecodable_entry_kept_with_empty_content() {
    let mut store = OverlayStore::new();
    store.offer("Data/Broken.xdb", "a.pak", 100, None);
    let f = store.lookup("data/broken.xdb").unwrap();
    assert_eq!(f.content, "");
}

#[test]
fn undecodable_entry_never_replaces() {
    let mut store = OverlayStore::new();
    store.offer("Data/File.xdb", "a.pak", 100, Some(String::from("good")));
    store.offer("Data/File.xdb", "b.pak", 200, None);
    let f = store.lookup("data/file.xdb").unwrap();
    assert_eq!(f.content, "good");
}

#[test]
fn excluded_paths_absent_whatever_the_order() {
    let mut store = OverlayStore::new();
    store.offer("Sounds/boom.wav", "a.pak", 100, Some(String::from("x")));
    store.offer("scripts/common.lua", "a.pak", 100, Some(String::from("x")));
    store.offer("Textures/wall.dds", "a.pak", 100, Some(String::from("x")));
    store.offer("GameMechanics/types.xml", "a.pak", 100, Some(String::from("x")));
    assert!(store.lookup("sounds/boom.wav").is_none());
    assert!(store.lookup("scripts/common.lua").is_none());
    assert!(store.lookup("textures/wall.dds").is_none());
    assert!(store.lookup("gamemechanics/types.xml").is_none());
    assert_eq!(store.len(), 0);
    let mut other = OverlayStore::new();
    other.offer("Textures/wall.dds", "a.pak", 300, Some(String::from("y")));
    assert!(other.lookup("textures/wall.dds").is_none());
}

#[test]
fn directory_markers_never_stored() {
    let mut store = OverlayStore::new();
    store.offer("Data/Sub/", "a.pak", 100, Some(String::new()));
    assert!(store.lookup("data/sub/").is_none());
    assert_eq!(store.len(), 0);
}

#[test]
fn is_excluded_matches_patterns() {
    assert!(pakscan::pak::is_excluded("GameMechanics/RMG/zones.xdb"));
    assert!(pakscan::pak::is_excluded("a/b/index.bin"));
    assert!(!pakscan::pak::is_excluded("GameMechanics/RefTables/Artifacts.xdb"));
}

#[test]
fn ingest_offers_in_order() {
    let mut store = OverlayStore::new();
    let entries = vec![
        RawEntry {
            name: String::from("Data/A.xdb"),
            modified: 10,
            content: Some(String::from("a")),
        },
        RawEntry {
            name: String::from("Data/A.xdb"),
            modified: 20,
            content: Some(String::from("b")),
        },
        RawEntry {
            name: String::from("Sounds/x.ogg"),
            modified: 20,
            content: Some(String::from("c")),
        },
    ];
    store.ingest("p.pak", &entries);
    assert_eq!(store.lookup("data/a.xdb").unwrap().content, "b");
    assert!(store.lookup("sounds/x.ogg").is_none());
}

#[test]
fn zip_archive_round_trip() {
    let buf = std::io::Cursor::new(Vec::new());
    let mut w = zip::ZipWriter::new(buf);
    let opts: zip::write::SimpleFileOptions = zip::write::SimpleFileOptions::default();
    w.start_file("Data/Greeting.txt", opts).unwrap();
    w.write_all(b"hello overlay").unwrap();
    w.start_file("Sounds/skip.ogg", opts).unwrap();
    w.write_all(b"noise").unwrap();
    let cursor = w.finish().unwrap();
    let bytes: Vec<u8> = cursor.into_inner();
    let mut store = OverlayStore::new();
    let ok = store.ingest_archive("test.pak", &bytes);
    assert!(ok);
    let f = store.lookup("data/greeting.txt").unwrap();
    assert_eq!(f.content, "hello overlay");
    assert_eq!(f.pak, "test.pak");
    assert!(store.lookup("sounds/skip.ogg").is_none());
}

#[test]
fn invalid_zip_is_rejected() {
    let mut store = OverlayStore::new();
    let bytes: Vec<u8> = vec![1, 2, 3, 4, 5];
    let ok = store.ingest_archive("bad.pak", &bytes);
    assert!(!ok);
    assert_eq!(store.len(), 0);
}
