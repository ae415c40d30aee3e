use miitopia::error::{DANGER_COLOUR, POSITIVE_COLOUR};
use miitopia::spotify::{authorization_header, error_from, parse_token};
use miitopia::{ApiError, ErrorField, JsonField, MiitopiaError, Spotify, SpotifyError};

fn text(s: &str) -> JsonField {
    JsonField::Text(s.to_string())
}

#[test]
fn error_descriptions() {
    assert_eq!(MiitopiaError::Ffmpeg("boom".to_string()).describe(), "Ffmpeg Error: boom");
    assert_eq!(MiitopiaError::InvalidFileType.describe(), "Invalid File Type");
    assert_eq!(
        MiitopiaError::UnsupportedFileType("text/plain".to_string()).describe(),
        "Unsupported File Type: text/plain"
    );
    assert_eq!(
        MiitopiaError::UnsupportedAudioType("text/html".to_string()).describe(),
        "Unsupported Audio Type: text/html"
    );
    assert_eq!(MiitopiaError::NoTracks.describe(), "No Tracks");
    assert_eq!(MiitopiaError::Io("broken pipe".to_string()).describe(), "IO Error: broken pipe");
    assert_eq!(MiitopiaError::Reqwest("dns".to_string()).describe(), "Reqwest Error: dns");
    assert_eq!(MiitopiaError::Serenity("gone".to_string()).describe(), "Serenity Error: gone");
    assert_eq!(
        MiitopiaError::Spotify(SpotifyError::NotFound).describe(),
        "Spotify API Error: Not Found or Not Available"
    );
}

#[test]
fn spotify_error_descriptions() {
    assert_eq!(SpotifyError::Generic(503).describe(), "Http 503");
    assert_eq!(
        SpotifyError::ApiError(ApiError { message: "bad id".to_string(), status: 400 }).describe(),
        "Api Error 400 bad id"
    );
    assert_eq!(SpotifyError::Unauthorized.describe(), "Unauthorized");
    assert_eq!(SpotifyError::InvalidToken.describe(), "Invalid Token");
    assert_eq!(SpotifyError::Reqwest("tls".to_string()).describe(), "Reqwest: tls");
}

#[test]
fn spotify_error_converts() {
    let e: MiitopiaError = SpotifyError::InvalidToken.into();
    assert_eq!(e, MiitopiaError::Spotify(SpotifyError::InvalidToken));
}

#[test]
fn embeds_of_errors() {
    let e = MiitopiaError::UnsupportedFileType("text/plain".to_string()).embed_error();
    assert_eq!(e.title, "\u{1f937} Unsupported File");
    assert_eq!(
        e.description,
        Some("The file type *text/plain* is not supported.".to_string())
    );
    assert_eq!(e.colour, DANGER_COLOUR);
    assert!(e.footer.starts_with("If you think this is a mistake"));
    assert!(e.footer_icon.ends_with("discord-profile.png"));

    let e = MiitopiaError::InvalidFileType.embed_error();
    assert_eq!(e.title, "\u{1f6a9}Invalid File Type");
    assert_eq!(e.description, None);

    let e = MiitopiaError::Ffmpeg("boom".to_string()).embed_error();
    assert_eq!(e.title, "\u{1f39e} FFmpeg Error");
    assert_eq!(e.description, Some("boom".to_string()));

    let e = MiitopiaError::NoTracks.embed_error();
    assert_eq!(e.description, Some("Miitopia could not find any audio.".to_string()));

    let e = MiitopiaError::Spotify(SpotifyError::Generic(500)).embed_error();
    assert_eq!(e.title, "\u{1f310} Spotify Error");
    assert_eq!(e.description, Some("Http 500".to_string()));
    assert_eq!(e.colour, POSITIVE_COLOUR);

    let e = MiitopiaError::Spotify(SpotifyError::NotFound).embed_error();
    assert_eq!(e.title, "Preview Not Found");
    assert_eq!(e.colour, DANGER_COLOUR);
}

#[test]
fn errors_from_responses() {
    assert_eq!(error_from(502, ErrorField::Unreadable), SpotifyError::Generic(502));
    assert_eq!(error_from(502, ErrorField::Malformed), SpotifyError::Generic(502));
    assert_eq!(
        error_from(400, ErrorField::Missing),
        SpotifyError::ApiError(ApiError { message: "Unknown Error".to_string(), status: 400 })
    );
    assert_eq!(
        error_from(401, ErrorField::Text("invalid_client".to_string())),
        SpotifyError::ApiError(ApiError { message: "invalid_client".to_string(), status: 401 })
    );
    let api = ApiError { message: "No token provided".to_string(), status: 401 };
    assert_eq!(
        error_from(400, ErrorField::Structured(api.clone())),
        SpotifyError::ApiError(api)
    );
}

#[test]
fn bearer_token_is_read() {
    assert_eq!(parse_token(&text("Bearer"), text("tok")), Some("tok".to_string()));
    assert_eq!(parse_token(&text("bearer"), text("tok")), None);
    assert_eq!(parse_token(&text("Bearer"), JsonField::Other), None);
    assert_eq!(parse_token(&JsonField::Missing, text("tok")), None);
}

#[test]
fn token_responses() {
    let s = Spotify::from_token_response(200, &text("Bearer"), text("tok"), ErrorField::Missing)
        .ok()
        .unwrap();
    assert_eq!(s.token(), "tok");
    let r = Spotify::from_token_response(200, &text("Basic"), text("tok"), ErrorField::Missing);
    assert_eq!(r.err(), Some(SpotifyError::InvalidToken));
    let r = Spotify::from_token_response(
        400,
        &JsonField::Missing,
        JsonField::Missing,
        ErrorField::Text("invalid_client".to_string()),
    );
    assert_eq!(
        r.err(),
        Some(SpotifyError::ApiError(ApiError {
            message: "invalid_client".to_string(),
            status: 400
        }))
    );
}

#[test]
fn credentials_are_encoded() {
    assert_eq!(authorization_header("id", "secret"), "Basic aWQ6c2VjcmV0");
    assert_eq!(authorization_header("", ""), "Basic Og==");
}

#[test]
fn track_record_address() {
    assert_eq!(
        Spotify::track_url("4uLU6hMCjMI75M1A2tKUQC"),
        "https://api.spotify.com/v1/tracks/4uLU6hMCjMI75M1A2tKUQC?market=AU"
    );
}
