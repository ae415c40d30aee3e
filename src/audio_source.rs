//! Where a message's audio comes from, and how a concrete clip is chosen.

use rand::rngs::SmallRng;
use rand::Rng;
use vstd::prelude::*;

use crate::error::MiitopiaError;
use crate::library::{unique_paths, TrackLibrary, MAX_LENGTH};
use crate::spotify::{JsonField, SpotifyError};
use crate::text::{chars_of, equals_text, is_space, is_white_space};

verus! {

/// The audio source that a message asks for.
#[derive(Debug, Clone, PartialEq, Eq)]
pub enum AudioSource {
    /// A clip of the bot's own library.
    Miitopia,
    /// An audio file at a web address.
    Url(String),
    /// The preview of a streaming-service track, by track id.
    Spotify(String),
}

/// An audio source as plain values.
pub enum SourceView {
    Miitopia,
    Url(Seq<char>),
    Spotify(Seq<char>),
}

impl View for AudioSource {
    type V = SourceView;

    open spec fn view(&self) -> SourceView {
        match self {
            AudioSource::Miitopia => SourceView::Miitopia,
            AudioSource::Url(u) => SourceView::Url(u@),
            AudioSource::Spotify(id) => SourceView::Spotify(id@),
        }
    }
}

/// How a streaming-service track address starts, up to the track id.
pub open spec fn track_prefix() -> Seq<char> {
    "https://open.spotify.com/track/"@
}

/// How a secure web address starts.
pub open spec fn https_prefix() -> Seq<char> {
    "https://"@
}

/// Whether `p` stands in `t` from position `i` on.
pub open spec fn occurs_at(t: Seq<char>, i: int, p: Seq<char>) -> bool {
    0 <= i && i + p.len() <= t.len() && t.subrange(i, i + p.len()) == p
}

/// The first position, from `i` on, at which `p` stands in `t`.
pub open spec fn first_from(t: Seq<char>, p: Seq<char>, i: int) -> Option<int>
    decreases t.len() + 1 - i,
{
    if i < 0 || i + p.len() > t.len() {
        None
    } else if occurs_at(t, i, p) {
        Some(i)
    } else {
        first_from(t, p, i + 1)
    }
}

/// The characters of a track id: ASCII letters and digits.
pub open spec fn is_id_char(c: char) -> bool {
    ('a' <= c && c <= 'z') || ('A' <= c && c <= 'Z') || ('0' <= c && c <= '9')
}

/// Where the run of id characters that starts at `j` ends.
pub open spec fn id_end(t: Seq<char>, j: int) -> int
    decreases t.len() - j,
{
    if 0 <= j < t.len() && is_id_char(t[j]) {
        id_end(t, j + 1)
    } else {
        j
    }
}

/// Where the run of non-white-space characters that starts at `j` ends.
pub open spec fn word_end(t: Seq<char>, j: int) -> int
    decreases t.len() - j,
{
    if 0 <= j < t.len() && !is_white_space(t[j]) {
        word_end(t, j + 1)
    } else {
        j
    }
}

/// The audio source that a message's text asks for: the first streaming-service
/// track address, else the first secure web address, else the library.
pub open spec fn classify(t: Seq<char>) -> SourceView {
    match first_from(t, track_prefix(), 0) {
        Some(i) => SourceView::Spotify(
            t.subrange(i + track_prefix().len(), id_end(t, i + track_prefix().len())),
        ),
        None => match first_from(t, https_prefix(), 0) {
            Some(i) => SourceView::Url(t.subrange(i, word_end(t, i + https_prefix().len()))),
            None => SourceView::Miitopia,
        },
    }
}

fn occurs_at_exec(t: &Vec<char>, i: usize, p: &Vec<char>) -> (r: bool)
    requires
        i + p@.len() <= t@.len(),
    ensures
        r == occurs_at(t@, i as int, p@),
{
    let n = t.len();
    let mut k: usize = 0;
    while k < p.len()
        invariant
            n == t@.len(),
            k <= p@.len(),
            i + p@.len() <= t@.len(),
            forall|m: int| 0 <= m < k ==> t@[i + m] == p@[m],
        decreases p@.len() - k,
    {
        assert(i + k < t@.len());
        if t[i + k] != p[k] {
            assert(t@.subrange(i as int, i + p@.len())[k as int] == t@[i + k]);
            return false;
        }
        k = k + 1;
    }
    assert(t@.subrange(i as int, i + p@.len()) =~= p@);
    true
}

fn first_exec(t: &Vec<char>, p: &Vec<char>) -> (r: Option<usize>)
    ensures
        match first_from(t@, p@, 0) {
            Some(k) => r == Some(k as usize),
            None => r is None,
        },
{
    let n = t.len();
    let mut i: usize = 0;
    while i <= n && p.len() <= n - i
        invariant
            n == t@.len(),
            i <= t@.len(),
            first_from(t@, p@, 0) == first_from(t@, p@, i as int),
        decreases t@.len() + 1 - i,
    {
        if occurs_at_exec(t, i, p) {
            return Some(i);
        }
        assert(p@.len() > 0) by {
            if p@.len() == 0 {
                assert(t@.subrange(i as int, i as int) =~= p@);
            }
        }
        i = i + 1;
    }
    None
}

fn id_end_exec(t: &Vec<char>, j: usize) -> (r: usize)
    requires
        j <= t@.len(),
    ensures
        r == id_end(t@, j as int),
{
    let mut k: usize = j;
    while k < t.len() && (('a' <= t[k] && t[k] <= 'z') || ('A' <= t[k] && t[k] <= 'Z') || ('0'
        <= t[k] && t[k] <= '9'))
        invariant
            j <= k <= t@.len(),
            id_end(t@, j as int) == id_end(t@, k as int),
        decreases t@.len() - k,
    {
        k = k + 1;
    }
    k
}

fn word_end_exec(t: &Vec<char>, j: usize) -> (r: usize)
    requires
        j <= t@.len(),
    ensures
        r == word_end(t@, j as int),
{
    let mut k: usize = j;
    while k < t.len() && !is_space(t[k])
        invariant
            j <= k <= t@.len(),
            word_end(t@, j as int) == word_end(t@, k as int),
        decreases t@.len() - k,
    {
        k = k + 1;
    }
    k
}

proof fn lemma_run_ends_in_range(t: Seq<char>, j: int)
    requires
        0 <= j <= t.len(),
    ensures
        j <= id_end(t, j) <= t.len(),
        j <= word_end(t, j) <= t.len(),
    decreases t.len() - j,
{
    if j < t.len() {
        lemma_run_ends_in_range(t, j + 1);
    }
}

proof fn lemma_first_occurs(t: Seq<char>, p: Seq<char>, i: int)
    requires
        0 <= i,
    ensures
        first_from(t, p, i) matches Some(k) ==> occurs_at(t, k, p) && i <= k,
    decreases t.len() + 1 - i,
{
    if i + p.len() <= t.len() && !occurs_at(t, i, p) {
        lemma_first_occurs(t, p, i + 1);
    }
}

fn slice_text(t: &Vec<char>, s: &str, a: usize, b: usize) -> (r: String)
    requires
        t@ == s@,
        a <= b <= t@.len(),
    ensures
        r@ == t@.subrange(a as int, b as int),
{
    s.substring_char(a, b).to_string()
}

/// What the network told about a message's audio source, when it is not the
/// library.
#[derive(Debug, Clone, PartialEq, Eq)]
pub enum Fetched {
    /// Nothing was fetched.
    Nothing,
    /// The media type that a remote audio file declares; `None` when the
    /// response declares none that can be read.
    ContentType(Option<String>),
    /// The `preview_url` member of a track's record.
    Preview(JsonField),
    /// The request failed.
    Failed(MiitopiaError),
}

#[verifier::external_type_specification]
#[verifier::external_body]
pub struct ExSmallRng(SmallRng);

/// Relies on rand's `Rng::gen_range` over `0..n`: a number below `n`. It panics
/// on an empty range, hence `n > 0`.
#[verifier::external_body]
fn draw_below(rng: &mut SmallRng, n: u64) -> (r: u64)
    requires
        n > 0,
    ensures
        r < n,
{
    rng.gen_range(0..n)
}

/// Whether `start` is a start offset that keeps a clip of `duration`
/// milliseconds within `MAX_LENGTH` of its end: a short clip is used whole, a
/// long one from a point at least `MAX_LENGTH` before its end.
pub open spec fn valid_start(start: u64, duration: u64) -> bool {
    if duration > MAX_LENGTH {
        start < duration - MAX_LENGTH
    } else {
        start == 0
    }
}

/// Whether `r` is a possible pick from the library `lib`.
pub open spec fn is_library_pick(
    r: Result<(String, u64), MiitopiaError>,
    lib: Seq<(Seq<char>, u64)>,
) -> bool {
    if lib.len() == 0 {
        r == Err::<(String, u64), MiitopiaError>(MiitopiaError::NoTracks)
    } else {
        r matches Ok(seg) && exists|i: int|
            0 <= i < lib.len() && #[trigger] lib[i].0 == seg.0@ && valid_start(seg.1, lib[i].1)
    }
}

/// The media types accepted for remote audio.
pub open spec fn is_audio_type(t: Seq<char>) -> bool {
    t == "audio/mpeg"@ || t == "audio/ogg"@ || t == "audio/vorbis"@
}

/// Whether `r` is what a source resolves to, given what was fetched for it and
/// the library's picks.
pub open spec fn is_track_for(
    r: Result<(String, u64), MiitopiaError>,
    src: SourceView,
    lib: Seq<(Seq<char>, u64)>,
    fetched: Fetched,
) -> bool {
    match src {
        SourceView::Miitopia => is_library_pick(r, lib),
        SourceView::Url(u) => match fetched {
            Fetched::Failed(e) => r == Err::<(String, u64), MiitopiaError>(e),
            Fetched::ContentType(Some(t)) => if is_audio_type(t@) {
                r matches Ok(seg) && seg.0@ == u && seg.1 == 0
            } else {
                r == Err::<(String, u64), MiitopiaError>(MiitopiaError::UnsupportedAudioType(t))
            },
            _ => r matches Err(MiitopiaError::UnsupportedAudioType(m)) && m@ == "Unknown"@,
        },
        SourceView::Spotify(_) => match fetched {
            Fetched::Failed(e) => r == Err::<(String, u64), MiitopiaError>(e),
            Fetched::Preview(JsonField::Text(p)) => r == Ok::<(String, u64), MiitopiaError>(
                (p, 0),
            ),
            _ => r == Err::<(String, u64), MiitopiaError>(
                MiitopiaError::Spotify(SpotifyError::NotFound),
            ),
        },
    }
}

/// How a source reads in logs.
pub open spec fn source_text(src: SourceView) -> Seq<char> {
    match src {
        SourceView::Miitopia => "Miitopia"@,
        SourceView::Url(u) => "Url:"@ + u,
        SourceView::Spotify(id) => "Spotify track:"@ + id,
    }
}

impl AudioSource {
    /// The source in words.
    pub fn describe(&self) -> (r: String)
        ensures
            r@ == source_text(self@),
    {
        match self {
            AudioSource::Miitopia => String::from_str("Miitopia"),
            AudioSource::Url(u) => {
                let mut r = String::from_str("Url:");
                r.append(u.as_str());
                r
            },
            AudioSource::Spotify(id) => {
                let mut r = String::from_str("Spotify track:");
                r.append(id.as_str());
                r
            },
        }
    }

    /// A clip of the library, drawn at random, with a start offset drawn at
    /// random where the clip is longer than `MAX_LENGTH`.
    pub fn library_track(library: &TrackLibrary, rng: &mut SmallRng) -> (r: Result<
        (String, u64),
        MiitopiaError,
    >)
        ensures
            is_library_pick(r, library@),
    {
        let n = library.len();
        if n == 0 {
            return Err(MiitopiaError::NoTracks);
        }
        let index = draw_below(rng, n as u64) as usize;
        match library.get_index(index) {
            Some((path, duration)) => {
                let start = if duration > MAX_LENGTH {
                    draw_below(rng, duration - MAX_LENGTH)
                } else {
                    0
                };
                assert(library@[index as int].0 == path@);
                Ok((path, start))
            },
            None => Err(MiitopiaError::NoTracks),
        }
    }

    /// The audio that this source resolves to, as an audio reference (a clip
    /// path or a web address) and a start offset in milliseconds. `fetched` is
    /// what the network told about a remote source; the library ignores it.
    pub fn get_track(&self, library: &TrackLibrary, rng: &mut SmallRng, fetched: Fetched) -> (r:
        Result<(String, u64), MiitopiaError>)
        ensures
            is_track_for(r, self@, library@, fetched),
    {
        match self {
            AudioSource::Miitopia => AudioSource::library_track(library, rng),
            AudioSource::Url(url) => match fetched {
                Fetched::Failed(e) => Err(e),
                Fetched::ContentType(Some(t)) => {
                    if equals_text(&t, "audio/mpeg") || equals_text(&t, "audio/ogg")
                        || equals_text(&t, "audio/vorbis") {
                        Ok((url.clone(), 0))
                    } else {
                        Err(MiitopiaError::UnsupportedAudioType(t))
                    }
                },
                _ => Err(MiitopiaError::UnsupportedAudioType(String::from_str("Unknown"))),
            },
            AudioSource::Spotify(_) => match fetched {
                Fetched::Failed(e) => Err(e),
                Fetched::Preview(JsonField::Text(p)) => Ok((p, 0)),
                _ => Err(MiitopiaError::Spotify(SpotifyError::NotFound)),
            },
        }
    }

    /// The audio source that a message's text asks for.
    pub fn from_msg_content(msg_content: &String) -> (r: AudioSource)
        ensures
            r@ == classify(msg_content@),
    {
        let t = chars_of(msg_content.as_str());
        let n = t.len();
        let track = chars_of("https://open.spotify.com/track/");
        let https = chars_of("https://");
        proof {
            reveal_strlit("https://open.spotify.com/track/");
            reveal_strlit("https://");
            lemma_first_occurs(t@, track@, 0);
            lemma_first_occurs(t@, https@, 0);
        }
        match first_exec(&t, &track) {
            Some(i) => {
                assert(i + track@.len() <= n);
                let start = i + track.len();
                proof {
                    lemma_run_ends_in_range(t@, start as int);
                }
                let end = id_end_exec(&t, start);
                AudioSource::Spotify(slice_text(&t, msg_content.as_str(), start, end))
            },
            None => match first_exec(&t, &https) {
                Some(i) => {
                    assert(i + https@.len() <= n);
                    let start = i + https.len();
                    proof {
                        lemma_run_ends_in_range(t@, start as int);
                    }
                    let end = word_end_exec(&t, start);
                    AudioSource::Url(slice_text(&t, msg_content.as_str(), i, end))
                },
                None => AudioSource::Miitopia,
            },
        }
    }
}

proof fn lemma_first_none(t: Seq<char>, p: Seq<char>, i: int)
    requires
        0 <= i,
        forall|j: int| i <= j ==> !occurs_at(t, j, p),
    ensures
        first_from(t, p, i) is None,
    decreases t.len() + 1 - i,
{
    if i + p.len() <= t.len() {
        lemma_first_none(t, p, i + 1);
    }
}

proof fn lemma_first_is(t: Seq<char>, p: Seq<char>, i: int, k: int)
    requires
        0 <= i <= k,
        occurs_at(t, k, p),
        forall|j: int| i <= j < k ==> !occurs_at(t, j, p),
    ensures
        first_from(t, p, i) == Some(k),
    decreases k - i,
{
    if i < k {
        lemma_first_is(t, p, i + 1, k);
    }
}

proof fn lemma_id_run(t: Seq<char>, j: int)
    requires
        0 <= j <= t.len(),
    ensures
        forall|m: int| j <= m < id_end(t, j) ==> is_id_char(#[trigger] t[m]),
        id_end(t, j) < t.len() ==> !is_id_char(t[id_end(t, j)]),
    decreases t.len() - j,
{
    if j < t.len() && is_id_char(t[j]) {
        lemma_id_run(t, j + 1);
    }
}

proof fn lemma_word_run(t: Seq<char>, j: int)
    requires
        0 <= j <= t.len(),
    ensures
        forall|m: int| j <= m < word_end(t, j) ==> !is_white_space(#[trigger] t[m]),
        word_end(t, j) < t.len() ==> is_white_space(t[word_end(t, j)]),
    decreases t.len() - j,
{
    if j < t.len() && !is_white_space(t[j]) {
        lemma_word_run(t, j + 1);
    }
}

proof fn lemma_track_address_is_https(t: Seq<char>, j: int)
    requires
        occurs_at(t, j, track_prefix()),
    ensures
        occurs_at(t, j, https_prefix()),
{
    reveal_strlit("https://open.spotify.com/track/");
    reveal_strlit("https://");
    assert(t.subrange(j, j + 8) =~= t.subrange(j, j + 31).subrange(0, 8));
    assert(track_prefix().subrange(0, 8) =~= https_prefix());
}

/// A text with no secure web address in it asks for the library.
pub proof fn lemma_plain_text_is_library(t: Seq<char>)
    requires
        forall|j: int| !occurs_at(t, j, https_prefix()),
    ensures
        classify(t) == SourceView::Miitopia,
{
    assert forall|j: int| 0 <= j implies !occurs_at(t, j, track_prefix()) by {
        if occurs_at(t, j, track_prefix()) {
            lemma_track_address_is_https(t, j);
        }
    }
    lemma_first_none(t, track_prefix(), 0);
    lemma_first_none(t, https_prefix(), 0);
}

/// A text whose first streaming-service track address starts at `k` asks for
/// that track, whose id is the whole run of letters and digits after
/// `/track/`.
pub proof fn lemma_track_address_gives_id(t: Seq<char>, k: int)
    requires
        occurs_at(t, k, track_prefix()),
        forall|j: int| 0 <= j < k ==> !occurs_at(t, j, track_prefix()),
    ensures
        ({
            let s = k + track_prefix().len();
            &&& classify(t) == SourceView::Spotify(t.subrange(s, id_end(t, s)))
            &&& s <= id_end(t, s) <= t.len()
            &&& forall|m: int| s <= m < id_end(t, s) ==> is_id_char(#[trigger] t[m])
            &&& id_end(t, s) < t.len() ==> !is_id_char(t[id_end(t, s)])
        }),
{
    reveal_strlit("https://open.spotify.com/track/");
    lemma_first_is(t, track_prefix(), 0, k);
    let s = k + track_prefix().len();
    lemma_run_ends_in_range(t, s);
    lemma_id_run(t, s);
}

/// A text with no streaming-service track address, whose first secure web
/// address starts at `k`, asks for the audio at that address, which runs up to
/// the next white space.
pub proof fn lemma_https_address_gives_url(t: Seq<char>, k: int)
    requires
        forall|j: int| !occurs_at(t, j, track_prefix()),
        occurs_at(t, k, https_prefix()),
        forall|j: int| 0 <= j < k ==> !occurs_at(t, j, https_prefix()),
    ensures
        ({
            let s = k + https_prefix().len();
            &&& classify(t) == SourceView::Url(t.subrange(k, word_end(t, s)))
            &&& t.subrange(k, s) == https_prefix()
            &&& s <= word_end(t, s) <= t.len()
            &&& forall|m: int| k <= m < word_end(t, s) ==> !is_white_space(#[trigger] t[m])
            &&& word_end(t, s) < t.len() ==> is_white_space(t[word_end(t, s)])
        }),
{
    reveal_strlit("https://");
    lemma_first_none(t, track_prefix(), 0);
    lemma_first_is(t, https_prefix(), 0, k);
    lemma_run_ends_in_range(t, k + https_prefix().len());
    lemma_word_run(t, k + https_prefix().len());
    let s = k + https_prefix().len();
    assert forall|m: int| k <= m < s implies !is_white_space(#[trigger] t[m]) by {
        assert(t[m] == t.subrange(k, s)[m - k]);
    }
}

/// Whatever the draw, a clip of the library is used whole when it is no longer
/// than `MAX_LENGTH`, and otherwise from a point that leaves more than
/// `MAX_LENGTH` of it, so the audio never runs past the clip's end.
pub proof fn lemma_library_start_in_window(
    r: Result<(String, u64), MiitopiaError>,
    lib: Seq<(Seq<char>, u64)>,
    fetched: Fetched,
    k: int,
)
    requires
        unique_paths(lib),
        is_track_for(r, SourceView::Miitopia, lib, fetched),
        0 <= k < lib.len(),
        r matches Ok(seg) && seg.0@ == lib[k].0,
    ensures
        r matches Ok(seg) && (lib[k].1 <= MAX_LENGTH ==> seg.1 == 0) && seg.1 + vstd::math::min(
            lib[k].1 as int,
            MAX_LENGTH as int,
        ) <= lib[k].1,
{
    let seg = r->Ok_0;
    let i = choose|i: int|
        0 <= i < lib.len() && #[trigger] lib[i].0 == seg.0@ && valid_start(seg.1, lib[i].1);
    if i != k {
        if i < k {
            assert(lib[i].0 != lib[k].0);
        } else {
            assert(lib[k].0 != lib[i].0);
        }
    }
}

/// An empty library always fails with `NoTracks`.
pub proof fn lemma_empty_library_fails(
    r: Result<(String, u64), MiitopiaError>,
    lib: Seq<(Seq<char>, u64)>,
    fetched: Fetched,
)
    requires
        lib.len() == 0,
        is_track_for(r, SourceView::Miitopia, lib, fetched),
    ensures
        r == Err::<(String, u64), MiitopiaError>(MiitopiaError::NoTracks),
{
}

} // verus!
