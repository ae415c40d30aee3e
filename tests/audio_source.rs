use miitopia::{
    AudioSource, Fetched, JsonField, MiitopiaError, SpotifyError, TrackLibrary, MAX_LENGTH,
};
use rand::rngs::SmallRng;
use rand::SeedableRng;

fn classify(text: &str) -> AudioSource {
    AudioSource::from_msg_content(&text.to_string())
}

#[test]
fn plain_text_asks_for_the_library() {
    assert_eq!(classify("make this one sing"), AudioSource::Miitopia);
    assert_eq!(classify("@bot"), AudioSource::Miitopia);
    assert_eq!(classify("see http://example.com/a.mp3"), AudioSource::Miitopia);
    assert_eq!(classify(""), AudioSource::Miitopia);
}

#[test]
fn track_address_gives_its_id() {
    assert_eq!(
        classify("use https://open.spotify.com/track/4uLU6hMCjMI75M1A2tKUQC please"),
        AudioSource::Spotify("4uLU6hMCjMI75M1A2tKUQC".to_string())
    );
}

#[test]
fn track_id_stops_at_the_query() {
    assert_eq!(
        classify("https://open.spotify.com/track/abc123?si=xyz"),
        AudioSource::Spotify("abc123".to_string())
    );
}

#[test]
fn track_address_wins_over_an_earlier_address() {
    assert_eq!(
        classify("https://a.example/x.ogg then https://open.spotify.com/track/Zz9"),
        AudioSource::Spotify("Zz9".to_string())
    );
}

#[test]
fn first_track_address_is_used() {
    assert_eq!(
        classify("https://open.spotify.com/track/one https://open.spotify.com/track/two"),
        AudioSource::Spotify("one".to_string())
    );
}

#[test]
fn empty_track_id_is_kept() {
    assert_eq!(
        classify("https://open.spotify.com/track/"),
        AudioSource::Spotify(String::new())
    );
}

#[test]
fn https_address_is_used_up_to_white_space() {
    assert_eq!(
        classify("hey https://cdn.example.com/song.mp3\tand https://other.example/b.ogg"),
        AudioSource::Url("https://cdn.example.com/song.mp3".to_string())
    );
    assert_eq!(
        classify("https://x.example/\u{e9}t\u{e9}.ogg"),
        AudioSource::Url("https://x.example/\u{e9}t\u{e9}.ogg".to_string())
    );
}

#[test]
fn https_address_stops_at_unicode_space() {
    assert_eq!(
        classify("https://x.example/a.ogg\u{3000}more"),
        AudioSource::Url("https://x.example/a.ogg".to_string())
    );
}

#[test]
fn empty_library_fails_with_no_tracks() {
    let library = TrackLibrary::new();
    let mut rng = SmallRng::seed_from_u64(1);
    for _ in 0..20 {
        let r = AudioSource::Miitopia.get_track(&library, &mut rng, Fetched::Nothing);
        assert_eq!(r, Err(MiitopiaError::NoTracks));
    }
}

#[test]
fn short_clips_start_at_zero() {
    let mut library = TrackLibrary::new();
    assert!(library.insert("a.ogg".to_string(), 4_000));
    assert!(library.insert("b.ogg".to_string(), MAX_LENGTH));
    let mut rng = SmallRng::seed_from_u64(2);
    for _ in 0..200 {
        let (path, start) = AudioSource::Miitopia
            .get_track(&library, &mut rng, Fetched::Nothing)
            .unwrap();
        assert!(path == "a.ogg" || path == "b.ogg");
        assert_eq!(start, 0);
    }
}

#[test]
fn long_clip_starts_are_spread_over_the_window() {
    let mut library = TrackLibrary::new();
    library.insert("long.ogg".to_string(), 50_000);
    let window = 50_000 - MAX_LENGTH;
    let mut rng = SmallRng::seed_from_u64(3);
    let mut buckets = [0u32; 4];
    let draws = 20_000;
    for _ in 0..draws {
        let (path, start) = AudioSource::Miitopia
            .get_track(&library, &mut rng, Fetched::Nothing)
            .unwrap();
        assert_eq!(path, "long.ogg");
        assert!(start < window);
        assert!(start + MAX_LENGTH <= 50_000);
        buckets[(start * 4 / window) as usize] += 1;
    }
    for b in buckets {
        let share = b as f64 / draws as f64;
        assert!((share - 0.25).abs() < 0.02, "bucket share {}", share);
    }
}

#[test]
fn every_clip_gets_picked() {
    let mut library = TrackLibrary::new();
    library.insert("a.ogg".to_string(), 12_000);
    library.insert("b.ogg".to_string(), 12_000);
    library.insert("c.ogg".to_string(), 12_000);
    let mut rng = SmallRng::seed_from_u64(4);
    let mut seen = [false; 3];
    for _ in 0..300 {
        let (path, start) = AudioSource::Miitopia
            .get_track(&library, &mut rng, Fetched::Nothing)
            .unwrap();
        assert!(start < 2_000);
        match path.as_str() {
            "a.ogg" => seen[0] = true,
            "b.ogg" => seen[1] = true,
            "c.ogg" => seen[2] = true,
            other => panic!("unexpected clip {}", other),
        }
    }
    assert_eq!(seen, [true, true, true]);
}

#[test]
fn remote_audio_types_are_accepted() {
    let library = TrackLibrary::new();
    let mut rng = SmallRng::seed_from_u64(5);
    let source = AudioSource::Url("https://x.example/a.ogg".to_string());
    for t in ["audio/mpeg", "audio/ogg", "audio/vorbis"] {
        let r = source.get_track(&library, &mut rng, Fetched::ContentType(Some(t.to_string())));
        assert_eq!(r, Ok(("https://x.example/a.ogg".to_string(), 0)));
    }
}

#[test]
fn other_remote_types_are_refused() {
    let library = TrackLibrary::new();
    let mut rng = SmallRng::seed_from_u64(6);
    let source = AudioSource::Url("https://x.example/page".to_string());
    let r = source.get_track(
        &library,
        &mut rng,
        Fetched::ContentType(Some("text/html".to_string())),
    );
    assert_eq!(r, Err(MiitopiaError::UnsupportedAudioType("text/html".to_string())));
    let r = source.get_track(&library, &mut rng, Fetched::ContentType(None));
    assert_eq!(r, Err(MiitopiaError::UnsupportedAudioType("Unknown".to_string())));
}

#[test]
fn failed_fetch_is_passed_on() {
    let library = TrackLibrary::new();
    let mut rng = SmallRng::seed_from_u64(7);
    let failure = MiitopiaError::Reqwest("connection refused".to_string());
    let source = AudioSource::Url("https://x.example/a.ogg".to_string());
    let r = source.get_track(&library, &mut rng, Fetched::Failed(failure.clone()));
    assert_eq!(r, Err(failure.clone()));
    let source = AudioSource::Spotify("abc".to_string());
    let r = source.get_track(&library, &mut rng, Fetched::Failed(failure.clone()));
    assert_eq!(r, Err(failure));
}

#[test]
fn preview_address_is_used() {
    let library = TrackLibrary::new();
    let mut rng = SmallRng::seed_from_u64(8);
    let source = AudioSource::Spotify("abc".to_string());
    let preview = "https://p.scdn.co/mp3-preview/abc".to_string();
    let r = source.get_track(
        &library,
        &mut rng,
        Fetched::Preview(JsonField::Text(preview.clone())),
    );
    assert_eq!(r, Ok((preview, 0)));
}

#[test]
fn missing_preview_is_not_found() {
    let library = TrackLibrary::new();
    let mut rng = SmallRng::seed_from_u64(9);
    let source = AudioSource::Spotify("abc".to_string());
    let not_found = Err(MiitopiaError::Spotify(SpotifyError::NotFound));
    assert_eq!(
        source.get_track(&library, &mut rng, Fetched::Preview(JsonField::Missing)),
        not_found
    );
    assert_eq!(
        source.get_track(&library, &mut rng, Fetched::Preview(JsonField::Other)),
        not_found
    );
}

#[test]
fn sources_in_words() {
    assert_eq!(AudioSource::Miitopia.describe(), "Miitopia");
    assert_eq!(AudioSource::Url("https://a/b".to_string()).describe(), "Url:https://a/b");
    assert_eq!(AudioSource::Spotify("xyz".to_string()).describe(), "Spotify track:xyz");
}
