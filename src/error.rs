//! The errors of one message's processing, and how each is shown to users.

use vstd::prelude::*;

use crate::spotify::{spotify_error_text, SpotifyError};
use crate::text::opt_view;

verus! {

/// Why one attachment could not be set to music.
#[derive(Debug, Clone, PartialEq, Eq)]
pub enum MiitopiaError {
    /// The chat platform failed; holds its description.
    Serenity(String),
    /// The transcoder exited unsuccessfully; holds its trimmed diagnostics.
    Ffmpeg(String),
    /// A local input or output operation failed; holds its description.
    Io(String),
    /// The attachment declares no media type.
    InvalidFileType,
    /// The attachment's media type is not one the transcoder is given.
    UnsupportedFileType(String),
    /// A remote audio file's declared media type is not an accepted audio type.
    UnsupportedAudioType(String),
    /// A network request failed; holds its description.
    Reqwest(String),
    /// The clip library is empty.
    NoTracks,
    Spotify(SpotifyError),
}

/// Red, the colour of error notices.
pub const DANGER_COLOUR: u32 = 0xED4245;

/// Green, the colour of notices about the streaming service.
pub const POSITIVE_COLOUR: u32 = 0x3BA55D;

/// A rich reply that reports an error.
#[derive(Debug, Clone, PartialEq, Eq)]
pub struct ErrorEmbed {
    pub title: String,
    pub description: Option<String>,
    pub colour: u32,
    pub footer: String,
    pub footer_icon: String,
}

/// How an error reads to a person.
pub open spec fn error_text(e: MiitopiaError) -> Seq<char> {
    match e {
        MiitopiaError::Serenity(m) => "Serenity Error: "@ + m@,
        MiitopiaError::Ffmpeg(m) => "Ffmpeg Error: "@ + m@,
        MiitopiaError::Io(m) => "IO Error: "@ + m@,
        MiitopiaError::InvalidFileType => "Invalid File Type"@,
        MiitopiaError::UnsupportedFileType(m) => "Unsupported File Type: "@ + m@,
        MiitopiaError::UnsupportedAudioType(m) => "Unsupported Audio Type: "@ + m@,
        MiitopiaError::Reqwest(m) => "Reqwest Error: "@ + m@,
        MiitopiaError::NoTracks => "No Tracks"@,
        MiitopiaError::Spotify(s) => "Spotify API Error: "@ + spotify_error_text(s),
    }
}

/// Title, description and colour of the notice for an error.
pub open spec fn embed_parts(e: MiitopiaError) -> (Seq<char>, Option<Seq<char>>, u32) {
    match e {
        MiitopiaError::Serenity(m) => ("\u{1f525} Serenity Error"@, Some(m@), DANGER_COLOUR),
        MiitopiaError::Ffmpeg(m) => ("\u{1f39e} FFmpeg Error"@, Some(m@), DANGER_COLOUR),
        MiitopiaError::Io(m) => ("\u{1f4be} IO Error"@, Some(m@), DANGER_COLOUR),
        MiitopiaError::InvalidFileType => ("\u{1f6a9}Invalid File Type"@, None, DANGER_COLOUR),
        MiitopiaError::UnsupportedFileType(m) => (
            "\u{1f937} Unsupported File"@,
            Some("The file type *"@ + m@ + "* is not supported."@),
            DANGER_COLOUR,
        ),
        MiitopiaError::UnsupportedAudioType(m) => (
            "\u{1f937} Unsupported Audio"@,
            Some("The audio type *"@ + m@ + "* is not supported."@),
            DANGER_COLOUR,
        ),
        MiitopiaError::Reqwest(m) => (
            "\u{1f310} Requwest \u{2d8}\u{a4b3}\u{2d8} Error "@,
            Some(m@),
            DANGER_COLOUR,
        ),
        MiitopiaError::NoTracks => (
            "\u{1f525} No Audio Found"@,
            Some("Miitopia could not find any audio."@),
            DANGER_COLOUR,
        ),
        MiitopiaError::Spotify(SpotifyError::NotFound) => (
            "Preview Not Found"@,
            Some(
                "Spotify offers no preview of this track in this market (AU), even where it plays fine elsewhere, so it cannot be used."@,
            ),
            DANGER_COLOUR,
        ),
        MiitopiaError::Spotify(s) => (
            "\u{1f310} Spotify Error"@,
            Some(spotify_error_text(s)),
            POSITIVE_COLOUR,
        ),
    }
}

fn text_of(lit: &str) -> (r: String)
    ensures
        r@ == lit@,
{
    String::from_str(lit)
}

fn joined(a: &str, b: &str) -> (r: String)
    ensures
        r@ == a@ + b@,
{
    let mut r = String::from_str(a);
    r.append(b);
    r
}

fn joined3(a: &str, b: &str, c: &str) -> (r: String)
    ensures
        r@ == a@ + b@ + c@,
{
    let mut r = joined(a, b);
    r.append(c);
    r
}

impl From<SpotifyError> for MiitopiaError {
    fn from(e: SpotifyError) -> (r: MiitopiaError)
        ensures
            r == MiitopiaError::Spotify(e),
    {
        MiitopiaError::Spotify(e)
    }
}

impl vstd::std_specs::convert::FromSpecImpl<SpotifyError> for MiitopiaError {
    open spec fn obeys_from_spec() -> bool {
        true
    }

    open spec fn from_spec(e: SpotifyError) -> MiitopiaError {
        MiitopiaError::Spotify(e)
    }
}

impl MiitopiaError {
    /// The error in words.
    pub fn describe(&self) -> (r: String)
        ensures
            r@ == error_text(*self),
    {
        match self {
            MiitopiaError::Serenity(m) => joined("Serenity Error: ", m.as_str()),
            MiitopiaError::Ffmpeg(m) => joined("Ffmpeg Error: ", m.as_str()),
            MiitopiaError::Io(m) => joined("IO Error: ", m.as_str()),
            MiitopiaError::InvalidFileType => text_of("Invalid File Type"),
            MiitopiaError::UnsupportedFileType(m) => joined("Unsupported File Type: ", m.as_str()),
            MiitopiaError::UnsupportedAudioType(m) => joined(
                "Unsupported Audio Type: ",
                m.as_str(),
            ),
            MiitopiaError::Reqwest(m) => joined("Reqwest Error: ", m.as_str()),
            MiitopiaError::NoTracks => text_of("No Tracks"),
            MiitopiaError::Spotify(s) => {
                let d = s.describe();
                joined("Spotify API Error: ", d.as_str())
            },
        }
    }

    /// The notice that reports this error in a reply.
    pub fn embed_error(&self) -> (r: ErrorEmbed)
        ensures
            (r.title@, opt_view(r.description), r.colour) == embed_parts(*self),
            r.footer@ == "If you think this is a mistake, report this issue on github. https://github.com/SeeSharpeDen/miitopia/issues"@,
            r.footer_icon@ == "https://github.com/SeeSharpeDen/miitopia/raw/master/resources/discord-profile.png"@,
    {
        let (title, description, colour) = match self {
            MiitopiaError::Serenity(m) => (
                text_of("\u{1f525} Serenity Error"),
                Some(m.clone()),
                DANGER_COLOUR,
            ),
            MiitopiaError::Ffmpeg(m) => (
                text_of("\u{1f39e} FFmpeg Error"),
                Some(m.clone()),
                DANGER_COLOUR,
            ),
            MiitopiaError::Io(m) => (text_of("\u{1f4be} IO Error"), Some(m.clone()), DANGER_COLOUR),
            MiitopiaError::InvalidFileType => (
                text_of("\u{1f6a9}Invalid File Type"),
                None,
                DANGER_COLOUR,
            ),
            MiitopiaError::UnsupportedFileType(m) => (
                text_of("\u{1f937} Unsupported File"),
                Some(joined3("The file type *", m.as_str(), "* is not supported.")),
                DANGER_COLOUR,
            ),
            MiitopiaError::UnsupportedAudioType(m) => (
                text_of("\u{1f937} Unsupported Audio"),
                Some(joined3("The audio type *", m.as_str(), "* is not supported.")),
                DANGER_COLOUR,
            ),
            MiitopiaError::Reqwest(m) => (
                text_of("\u{1f310} Requwest \u{2d8}\u{a4b3}\u{2d8} Error "),
                Some(m.clone()),
                DANGER_COLOUR,
            ),
            MiitopiaError::NoTracks => (
                text_of("\u{1f525} No Audio Found"),
                Some(text_of("Miitopia could not find any audio.")),
                DANGER_COLOUR,
            ),
            MiitopiaError::Spotify(s) => match s {
                SpotifyError::NotFound => (
                    text_of("Preview Not Found"),
                    Some(
                        text_of(
                            "Spotify offers no preview of this track in this market (AU), even where it plays fine elsewhere, so it cannot be used.",
                        ),
                    ),
                    DANGER_COLOUR,
                ),
                _ => (text_of("\u{1f310} Spotify Error"), Some(s.describe()), POSITIVE_COLOUR),
            },
        };
        ErrorEmbed {
            title,
            description,
            colour,
            footer: text_of(
                "If you think this is a mistake, report this issue on github. https://github.com/SeeSharpeDen/miitopia/issues",
            ),
            footer_icon: text_of(
                "https://github.com/SeeSharpeDen/miitopia/raw/master/resources/discord-profile.png",
            ),
        }
    }
}

} // verus!
