use miitopia::{scan_music, TrackLibrary, MAX_LENGTH};

#[test]
fn new_library_is_empty() {
    let library = TrackLibrary::new();
    assert_eq!(library.len(), 0);
    assert!(library.is_empty());
    assert_eq!(library.get_index(0), None);
}

#[test]
fn insert_keeps_order_and_first_duration() {
    let mut library = TrackLibrary::new();
    assert!(library.insert("b.ogg".to_string(), 15_000));
    assert!(library.insert("a.ogg".to_string(), 11_000));
    assert!(!library.insert("b.ogg".to_string(), 99_000));
    assert_eq!(library.len(), 2);
    assert_eq!(library.get_index(0), Some(("b.ogg".to_string(), 15_000)));
    assert_eq!(library.get_index(1), Some(("a.ogg".to_string(), 11_000)));
    assert_eq!(library.get_index(2), None);
    assert!(library.contains(&"a.ogg".to_string()));
    assert!(!library.contains(&"c.ogg".to_string()));
}

#[test]
fn scan_keeps_short_clips_and_drops_repeated_paths() {
    let found = vec![
        ("music/one.ogg".to_string(), 30_000),
        ("music/short.ogg".to_string(), MAX_LENGTH - 1),
        ("music/exact.ogg".to_string(), MAX_LENGTH),
        ("music/one.ogg".to_string(), 45_000),
        ("music/two.ogg".to_string(), 12_500),
        ("music/tiny.ogg".to_string(), 0),
    ];
    let library = scan_music(found);
    assert_eq!(library.len(), 5);
    assert_eq!(library.get_index(0), Some(("music/one.ogg".to_string(), 30_000)));
    assert_eq!(library.get_index(1), Some(("music/short.ogg".to_string(), MAX_LENGTH - 1)));
    assert_eq!(library.get_index(2), Some(("music/exact.ogg".to_string(), MAX_LENGTH)));
    assert_eq!(library.get_index(3), Some(("music/two.ogg".to_string(), 12_500)));
    assert_eq!(library.get_index(4), Some(("music/tiny.ogg".to_string(), 0)));
}

#[test]
fn scan_of_one_short_clip_keeps_it() {
    let library = scan_music(vec![("a.ogg".to_string(), 5_000)]);
    assert_eq!(library.len(), 1);
    assert_eq!(library.get_index(0), Some(("a.ogg".to_string(), 5_000)));
}

#[test]
fn scan_of_nothing_is_empty() {
    assert!(scan_music(Vec::new()).is_empty());
}
