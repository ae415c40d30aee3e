//! Composition jobs: what the transcoder is asked to do for one attachment, how
//! its exit is read, and how the jobs of one message are gathered as they finish.

use vstd::prelude::*;
use vstd::utf8::{decode_utf8, valid_utf8};

use crate::audio_source::AudioSource;
use crate::error::MiitopiaError;
use crate::library::{TrackLibrary, MAX_LENGTH};
use crate::text::{equals_text, seconds, seconds_text, trim_text, trimmed};

verus! {

/// A file attached to a message, as far as composition reads it.
#[derive(Debug, Clone, PartialEq, Eq)]
pub struct Attachment {
    pub id: u64,
    pub filename: String,
    pub url: String,
    /// The media type that the platform declares for the file, if any.
    pub content_type: Option<String>,
}

/// One option on the transcoder's command line: a flag, or a key with a value.
#[derive(Debug, Clone, PartialEq, Eq)]
pub enum Param {
    Single(String),
    KeyValue(String, String),
}

/// An option as plain values.
pub enum ParamView {
    Single(Seq<char>),
    KeyValue(Seq<char>, Seq<char>),
}

impl View for Param {
    type V = ParamView;

    open spec fn view(&self) -> ParamView {
        match self {
            Param::Single(s) => ParamView::Single(s@),
            Param::KeyValue(k, v) => ParamView::KeyValue(k@, v@),
        }
    }
}

/// A list of options as plain values.
pub open spec fn params_view(p: Seq<Param>) -> Seq<ParamView> {
    p.map_values(|x: Param| x@)
}

/// How the transcoder reads an attachment.
#[derive(Debug, Clone, Copy, PartialEq, Eq, Structural)]
pub enum MediaKind {
    /// A still image, shown at a fixed low frame rate for the audio's length.
    Still,
    /// An animated image, looped to cover the audio.
    Animated,
    /// A video, passed through.
    Video,
}

/// The kind of an attachment's declared media type, if it is one the
/// transcoder is given.
pub open spec fn media_kind(t: Seq<char>) -> Option<MediaKind> {
    if t == "image/png"@ || t == "image/jpeg"@ || t == "image/webp"@ || t == "image/bmp"@ {
        Some(MediaKind::Still)
    } else if t == "image/gif"@ {
        Some(MediaKind::Animated)
    } else if t == "video/webm"@ {
        Some(MediaKind::Video)
    } else {
        None
    }
}

/// Options that hold for every run: no banner, errors only, no console input.
pub open spec fn global_params() -> Seq<ParamView> {
    seq![
        ParamView::Single("hide_banner"@),
        ParamView::KeyValue("loglevel"@, "error"@),
        ParamView::Single("nostdin"@),
    ]
}

/// Options of the audio input: where to start and how much to read.
pub open spec fn audio_params(start_ms: u64, duration_ms: u64) -> Seq<ParamView> {
    seq![
        ParamView::KeyValue("ss"@, seconds(start_ms as nat)),
        ParamView::KeyValue("t"@, seconds(duration_ms as nat)),
    ]
}

/// Options of the visual input, read from standard input.
pub open spec fn visual_params(kind: MediaKind) -> Seq<ParamView> {
    match kind {
        MediaKind::Still => seq![
            ParamView::KeyValue("f"@, "image2pipe"@),
            ParamView::KeyValue("framerate"@, "24"@),
        ],
        MediaKind::Animated => seq![
            ParamView::KeyValue("f"@, "gif"@),
            ParamView::KeyValue("stream_loop"@, "-1"@),
        ],
        MediaKind::Video => seq![ParamView::KeyValue("f"@, "webm"@)],
    }
}

/// Options of the output, written to standard output. Output stops with the
/// shorter stream except for still images, which last as long as the audio.
pub open spec fn output_params(kind: MediaKind) -> Seq<ParamView> {
    let base = seq![
        ParamView::KeyValue("f"@, "webm"@),
        ParamView::KeyValue("vf"@, "format=yuv420p"@),
        ParamView::KeyValue("map"@, "0:a:0"@),
        ParamView::KeyValue("map"@, "1:v:0"@),
        ParamView::KeyValue("threads"@, "4"@),
    ];
    if kind == MediaKind::Still {
        base
    } else {
        base.push(ParamView::Single("shortest"@))
    }
}

fn single(name: &str) -> (r: Param)
    ensures
        r@ == ParamView::Single(name@),
{
    Param::Single(String::from_str(name))
}

fn key_value(key: &str, value: &str) -> (r: Param)
    ensures
        r@ == ParamView::KeyValue(key@, value@),
{
    Param::KeyValue(String::from_str(key), String::from_str(value))
}

/// A transcoder run for one attachment, ready to start. Only `plan_job` makes
/// one, so a run is never started for an attachment it refused.
pub struct TranscodePlan {
    audio_file: String,
    attachment: Attachment,
    kind: MediaKind,
    global_options: Vec<Param>,
    audio_options: Vec<Param>,
    visual_options: Vec<Param>,
    output_options: Vec<Param>,
}

impl TranscodePlan {
    pub closed spec fn spec_audio_file(&self) -> String {
        self.audio_file
    }

    pub closed spec fn spec_attachment(&self) -> Attachment {
        self.attachment
    }

    pub closed spec fn spec_kind(&self) -> MediaKind {
        self.kind
    }

    pub closed spec fn spec_global_options(&self) -> Seq<ParamView> {
        params_view(self.global_options@)
    }

    pub closed spec fn spec_audio_options(&self) -> Seq<ParamView> {
        params_view(self.audio_options@)
    }

    pub closed spec fn spec_visual_options(&self) -> Seq<ParamView> {
        params_view(self.visual_options@)
    }

    pub closed spec fn spec_output_options(&self) -> Seq<ParamView> {
        params_view(self.output_options@)
    }
}

/// Whether `r` is the plan for composing `attachment` with `duration_ms`
/// milliseconds of `audio_file` from `start_ms` on.
pub open spec fn is_plan_for(
    r: Result<TranscodePlan, MiitopiaError>,
    audio_file: String,
    start_ms: u64,
    duration_ms: u64,
    attachment: Attachment,
) -> bool {
    match attachment.content_type {
        None => r == Err::<TranscodePlan, MiitopiaError>(MiitopiaError::InvalidFileType),
        Some(t) => match media_kind(t@) {
            None => r matches Err(MiitopiaError::UnsupportedFileType(m)) && m@ == t@,
            Some(kind) => r matches Ok(p) && p.spec_audio_file() == audio_file
                && p.spec_attachment() == attachment && p.spec_kind() == kind
                && p.spec_global_options() == global_params()
                && p.spec_audio_options() == audio_params(start_ms, duration_ms)
                && p.spec_visual_options() == visual_params(kind)
                && p.spec_output_options() == output_params(kind),
        },
    }
}

fn kind_of(t: &String) -> (r: Option<MediaKind>)
    ensures
        r == media_kind(t@),
{
    if equals_text(t, "image/png") || equals_text(t, "image/jpeg") || equals_text(t, "image/webp")
        || equals_text(t, "image/bmp") {
        Some(MediaKind::Still)
    } else if equals_text(t, "image/gif") {
        Some(MediaKind::Animated)
    } else if equals_text(t, "video/webm") {
        Some(MediaKind::Video)
    } else {
        None
    }
}

/// Decides how the transcoder composes `attachment` with `duration_ms`
/// milliseconds of `audio_file` from `start_ms` on. An attachment without a
/// declared media type, or with one outside the accepted images, animated
/// images and videos, is refused.
pub fn plan_job(audio_file: String, start_ms: u64, duration_ms: u64, attachment: Attachment) -> (r:
    Result<TranscodePlan, MiitopiaError>)
    ensures
        is_plan_for(r, audio_file, start_ms, duration_ms, attachment),
{
    let kind = match &attachment.content_type {
        None => {
            return Err(MiitopiaError::InvalidFileType);
        },
        Some(t) => match kind_of(t) {
            None => {
                return Err(MiitopiaError::UnsupportedFileType(t.clone()));
            },
            Some(k) => k,
        },
    };
    let global_options = vec![
        single("hide_banner"),
        key_value("loglevel", "error"),
        single("nostdin"),
    ];
    let audio_options = vec![
        Param::KeyValue(String::from_str("ss"), seconds_text(start_ms)),
        Param::KeyValue(String::from_str("t"), seconds_text(duration_ms)),
    ];
    let visual_options = match kind {
        MediaKind::Still => vec![key_value("f", "image2pipe"), key_value("framerate", "24")],
        MediaKind::Animated => vec![key_value("f", "gif"), key_value("stream_loop", "-1")],
        MediaKind::Video => vec![key_value("f", "webm")],
    };
    let mut output_options = vec![
        key_value("f", "webm"),
        key_value("vf", "format=yuv420p"),
        key_value("map", "0:a:0"),
        key_value("map", "1:v:0"),
        key_value("threads", "4"),
    ];
    if kind != MediaKind::Still {
        output_options.push(single("shortest"));
    }
    assert(params_view(global_options@) =~= global_params());
    assert(params_view(audio_options@) =~= audio_params(start_ms, duration_ms));
    assert(params_view(visual_options@) =~= visual_params(kind));
    assert(params_view(output_options@) =~= output_params(kind));
    Ok(
        TranscodePlan {
            audio_file,
            attachment,
            kind,
            global_options,
            audio_options,
            visual_options,
            output_options,
        },
    )
}

impl TranscodePlan {
    /// The audio reference: a clip path or a web address.
    pub fn audio_file(&self) -> (r: &String)
        ensures
            *r == self.spec_audio_file(),
    {
        &self.audio_file
    }

    /// The attachment to compose.
    pub fn attachment(&self) -> (r: &Attachment)
        ensures
            *r == self.spec_attachment(),
    {
        &self.attachment
    }

    /// How the transcoder reads the attachment.
    pub fn kind(&self) -> (r: MediaKind)
        ensures
            r == self.spec_kind(),
    {
        self.kind
    }

    /// Options placed before every input.
    pub fn global_options(&self) -> (r: &Vec<Param>)
        ensures
            params_view(r@) == self.spec_global_options(),
    {
        &self.global_options
    }

    /// Options of the audio input.
    pub fn audio_options(&self) -> (r: &Vec<Param>)
        ensures
            params_view(r@) == self.spec_audio_options(),
    {
        &self.audio_options
    }

    /// Options of the visual input, which comes on standard input.
    pub fn visual_options(&self) -> (r: &Vec<Param>)
        ensures
            params_view(r@) == self.spec_visual_options(),
    {
        &self.visual_options
    }

    /// Options of the output, which goes to standard output.
    pub fn output_options(&self) -> (r: &Vec<Param>)
        ensures
            params_view(r@) == self.spec_output_options(),
    {
        &self.output_options
    }
}

/// A finished composition.
#[derive(Debug, Clone, PartialEq, Eq)]
pub struct JobResult {
    pub audio_file: String,
    pub attachment: Attachment,
    /// What the transcoder reported on a successful run, if anything.
    pub stderr: Option<String>,
    /// The composed media file.
    pub output_file: Vec<u8>,
    /// How long the job took, in milliseconds.
    pub job_time_ms: u64,
}

/// The text of bytes decoded as UTF-8, each invalid sequence replaced by
/// U+FFFD.
pub uninterp spec fn lossy_text(b: Seq<u8>) -> Seq<char>;

/// Relies on `String::from_utf8_lossy`: invalid sequences become U+FFFD, and
/// valid UTF-8 is decoded as it is.
#[verifier::external_body]
fn decode_lossy(b: &[u8]) -> (r: String)
    ensures
        r@ == lossy_text(b@),
        valid_utf8(b@) ==> r@ == decode_utf8(b@),
{
    String::from_utf8_lossy(b).into_owned()
}

/// Relies on `String::from_utf8`: it succeeds exactly on valid UTF-8, and
/// then holds the decoded text.
#[verifier::external_body]
fn decode_utf8_exact(b: Vec<u8>) -> (r: Option<String>)
    ensures
        r is Some == valid_utf8(b@),
        r matches Some(s) ==> s@ == decode_utf8(b@),
{
    String::from_utf8(b).ok()
}

/// The failure of a run whose diagnostics read `diagnostics`: the diagnostics
/// without surrounding white space.
pub fn transcode_failure(diagnostics: &str) -> (r: MiitopiaError)
    ensures
        r matches MiitopiaError::Ffmpeg(m) && m@ == trimmed(diagnostics@),
{
    MiitopiaError::Ffmpeg(trim_text(diagnostics))
}

/// The diagnostics worth keeping from a successful run: the trimmed text,
/// unless nothing is left of it.
pub open spec fn kept_diagnostics(text: Option<Seq<char>>) -> Option<Seq<char>> {
    match text {
        Some(t) => if trimmed(t).len() == 0 {
            None
        } else {
            Some(trimmed(t))
        },
        None => None,
    }
}

/// Keeps the diagnostics of a successful run if any are left once trimmed.
pub fn diagnostic_text(text: Option<String>) -> (r: Option<String>)
    ensures
        crate::text::opt_view(r) == kept_diagnostics(crate::text::opt_view(text)),
{
    match text {
        Some(t) => {
            let k = trim_text(t.as_str());
            if k.unicode_len() == 0 {
                None
            } else {
                Some(k)
            }
        },
        None => None,
    }
}

/// The diagnostics of a run as text, where they are valid UTF-8.
pub open spec fn utf8_text(b: Seq<u8>) -> Option<Seq<char>> {
    if valid_utf8(b) {
        Some(decode_utf8(b))
    } else {
        None
    }
}

/// Whether `r` is the result of a finished run of `plan`.
pub open spec fn is_job_outcome(
    r: Result<JobResult, MiitopiaError>,
    plan: TranscodePlan,
    success: bool,
    stdout: Seq<u8>,
    stderr: Seq<u8>,
    elapsed_ms: u64,
) -> bool {
    if success {
        r matches Ok(j) && j.audio_file == plan.spec_audio_file() && j.attachment
            == plan.spec_attachment() && j.output_file@ == stdout && j.job_time_ms == elapsed_ms
            && crate::text::opt_view(j.stderr) == kept_diagnostics(utf8_text(stderr))
    } else {
        r matches Err(MiitopiaError::Ffmpeg(m)) && m@ == trimmed(lossy_text(stderr))
    }
}

/// Reads a finished transcoder run: an unsuccessful exit fails with the
/// trimmed diagnostics; a successful one gives the composed file, with the
/// diagnostics if there were any.
pub fn job_outcome(
    plan: TranscodePlan,
    success: bool,
    stdout: Vec<u8>,
    stderr: Vec<u8>,
    elapsed_ms: u64,
) -> (r: Result<JobResult, MiitopiaError>)
    ensures
        is_job_outcome(r, plan, success, stdout@, stderr@, elapsed_ms),
{
    if !success {
        let text = decode_lossy(stderr.as_slice());
        return Err(transcode_failure(text.as_str()));
    }
    let text = decode_utf8_exact(stderr);
    let kept = diagnostic_text(text);
    Ok(
        JobResult {
            audio_file: plan.audio_file,
            attachment: plan.attachment,
            stderr: kept,
            output_file: stdout,
            job_time_ms: elapsed_ms,
        },
    )
}

/// The file name under which a composed file is sent.
pub const OUTPUT_FILE_NAME: &'static str = "miitopia.webm";

/// One composition to run: an attachment with the audio resolved for it.
#[derive(Debug, Clone, PartialEq, Eq)]
pub struct Job {
    /// Names the job within its batch.
    pub id: u64,
    pub audio_file: String,
    pub start_ms: u64,
    pub duration_ms: u64,
    pub attachment: Attachment,
}

/// What one message's processing came to.
#[derive(Debug, Clone, PartialEq, Eq)]
pub struct Outcome {
    /// Finished compositions, in the order the jobs finished.
    pub successes: Vec<JobResult>,
    /// Failures, in the order they were met.
    pub failures: Vec<MiitopiaError>,
}

/// The jobs of one message: which are still running, and what the others and
/// the failed resolutions came to.
pub struct Batch {
    pending: Vec<u64>,
    next_id: u64,
    blocked: bool,
    successes: Vec<JobResult>,
    failures: Vec<MiitopiaError>,
    rejected: Ghost<nat>,
    job_failures: Ghost<nat>,
}

impl Batch {
    /// Ids of the jobs still running, in launch order.
    pub closed spec fn spec_pending(&self) -> Seq<u64> {
        self.pending@
    }

    /// The id that the next launched job gets; also the number launched.
    pub closed spec fn spec_next_id(&self) -> u64 {
        self.next_id
    }

    /// Whether the library source has no clip, so no job is launched.
    pub closed spec fn spec_blocked(&self) -> bool {
        self.blocked
    }

    pub closed spec fn spec_successes(&self) -> Seq<JobResult> {
        self.successes@
    }

    pub closed spec fn spec_failures(&self) -> Seq<MiitopiaError> {
        self.failures@
    }

    /// The number of failures that came from resolving audio.
    pub closed spec fn spec_rejected(&self) -> nat {
        self.rejected@
    }

    /// The number of failures that came from launched jobs.
    pub closed spec fn spec_job_failures(&self) -> nat {
        self.job_failures@
    }

    /// Running ids are distinct and were handed out; every launched job is
    /// running, succeeded or failed; every failure came from a resolution or
    /// from a job.
    pub open spec fn wf(&self) -> bool {
        &&& forall|i: int, j: int|
            0 <= i < j < self.spec_pending().len() ==> #[trigger] self.spec_pending()[i]
                != #[trigger] self.spec_pending()[j]
        &&& forall|i: int|
            0 <= i < self.spec_pending().len() ==> #[trigger] self.spec_pending()[i]
                < self.spec_next_id()
        &&& self.spec_successes().len() + self.spec_job_failures() + self.spec_pending().len()
            == self.spec_next_id()
        &&& self.spec_failures().len() == self.spec_rejected() + self.spec_job_failures()
        &&& self.spec_blocked() ==> self.spec_next_id() == 0
    }

    /// A batch for a message whose audio comes from `source`. Where that is
    /// the library and the library is empty, the batch starts with the one
    /// `NoTracks` failure and launches nothing.
    pub fn new(source: &AudioSource, library: &TrackLibrary) -> (r: Batch)
        ensures
            r.wf(),
            r.spec_pending().len() == 0,
            r.spec_next_id() == 0,
            r.spec_successes().len() == 0,
            r.spec_job_failures() == 0,
            r.spec_blocked() == (source is Miitopia && library@.len() == 0),
            r.spec_blocked() ==> r.spec_failures() == seq![MiitopiaError::NoTracks]
                && r.spec_rejected() == 1,
            !r.spec_blocked() ==> r.spec_failures().len() == 0 && r.spec_rejected() == 0,
    {
        let blocked = match source {
            AudioSource::Miitopia => library.is_empty(),
            _ => false,
        };
        let mut failures: Vec<MiitopiaError> = Vec::new();
        if blocked {
            failures.push(MiitopiaError::NoTracks);
        }
        Batch {
            pending: Vec::new(),
            next_id: 0,
            blocked,
            successes: Vec::new(),
            failures,
            rejected: Ghost(if blocked { 1 } else { 0 }),
            job_failures: Ghost(0),
        }
    }

    /// Whether jobs can still be launched; when not, the reason is already
    /// among the failures.
    pub fn accepts_jobs(&self) -> (r: bool)
        ensures
            r == !self.spec_blocked(),
    {
        !self.blocked
    }

    /// Whether the job `id` is still running.
    pub fn is_pending(&self, id: u64) -> (r: bool)
        ensures
            r == self.spec_pending().contains(id),
    {
        let mut i: usize = 0;
        while i < self.pending.len()
            invariant
                i <= self.pending@.len(),
                forall|k: int| 0 <= k < i ==> self.pending@[k] != id,
            decreases self.pending@.len() - i,
        {
            if self.pending[i] == id {
                return true;
            }
            i = i + 1;
        }
        false
    }

    /// Whether no job is still running.
    pub fn is_done(&self) -> (r: bool)
        ensures
            r == (self.spec_pending().len() == 0),
    {
        self.pending.len() == 0
    }

    /// Takes the audio resolved for one attachment. A failed resolution is
    /// recorded; a successful one launches a job, which is returned. Once
    /// the batch is blocked nothing changes.
    pub fn take_track(
        &mut self,
        attachment: Attachment,
        track: Result<(String, u64), MiitopiaError>,
    ) -> (job: Option<Job>)
        requires
            old(self).wf(),
            old(self).spec_next_id() < u64::MAX,
        ensures
            final(self).wf(),
            takes_track(*old(self), attachment, track, *final(self), job),
    {
        if self.blocked {
            return None;
        }
        match track {
            Err(e) => {
                self.failures.push(e);
                self.rejected = Ghost(self.rejected@ + 1);
                None
            },
            Ok((audio_file, start_ms)) => {
                let id = self.next_id;
                self.pending.push(id);
                self.next_id = id + 1;
                Some(Job { id, audio_file, start_ms, duration_ms: MAX_LENGTH, attachment })
            },
        }
    }

    /// Takes the tracks resolved for a message's attachments, in order: a job
    /// is launched for each resolved track and returned, and each failed
    /// resolution is recorded. A blocked batch takes nothing.
    pub fn take_tracks(
        &mut self,
        resolved: Vec<(Attachment, Result<(String, u64), MiitopiaError>)>,
    ) -> (jobs: Vec<Job>)
        requires
            old(self).wf(),
            old(self).spec_next_id() + resolved@.len() < u64::MAX,
        ensures
            final(self).wf(),
            final(self).spec_blocked() == old(self).spec_blocked(),
            final(self).spec_successes() == old(self).spec_successes(),
            final(self).spec_job_failures() == old(self).spec_job_failures(),
            old(self).spec_blocked() ==> jobs@.len() == 0 && final(self).spec_pending()
                == old(self).spec_pending() && final(self).spec_next_id()
                == old(self).spec_next_id() && final(self).spec_failures()
                == old(self).spec_failures() && final(self).spec_rejected()
                == old(self).spec_rejected(),
            !old(self).spec_blocked() ==> ({
                let tracks = track_seq(resolved@);
                &&& jobs@.len() == resolved_count(tracks)
                &&& final(self).spec_next_id() == old(self).spec_next_id() + resolved_count(tracks)
                &&& final(self).spec_pending().len() == old(self).spec_pending().len()
                    + resolved_count(tracks)
                &&& final(self).spec_rejected() == old(self).spec_rejected() + failed_count(tracks)
                &&& final(self).spec_failures() == old(self).spec_failures() + errors_of(tracks)
            }),
            forall|m: int| 0 <= m < jobs@.len() ==> launched_from(#[trigger] jobs@[m], resolved@),
    {
        let ghost all = resolved@;
        let ghost tracks = track_seq(all);
        let ghost b0 = *self;
        let n = resolved.len();
        let mut rest = resolved;
        let mut jobs: Vec<Job> = Vec::new();
        let ghost origin: Seq<int> = Seq::empty();
        let mut i: usize = 0;
        while rest.len() > 0
            invariant
                i <= all.len(),
                n == all.len(),
                rest@ == all.subrange(i as int, all.len() as int),
                tracks == track_seq(all),
                self.wf(),
                b0.spec_next_id() + all.len() < u64::MAX,
                self.spec_blocked() == b0.spec_blocked(),
                self.spec_successes() == b0.spec_successes(),
                self.spec_job_failures() == b0.spec_job_failures(),
                b0.spec_blocked() ==> jobs@.len() == 0 && self.spec_pending() == b0.spec_pending()
                    && self.spec_next_id() == b0.spec_next_id() && self.spec_failures()
                    == b0.spec_failures() && self.spec_rejected() == b0.spec_rejected(),
                resolved_count(tracks.subrange(0, i as int)) <= i,
                !b0.spec_blocked() ==> ({
                    let done = tracks.subrange(0, i as int);
                    &&& jobs@.len() == resolved_count(done)
                    &&& self.spec_next_id() == b0.spec_next_id() + resolved_count(done)
                    &&& self.spec_pending().len() == b0.spec_pending().len() + resolved_count(done)
                    &&& self.spec_rejected() == b0.spec_rejected() + failed_count(done)
                    &&& self.spec_failures() == b0.spec_failures() + errors_of(done)
                }),
                origin.len() == jobs@.len(),
                forall|m: int|
                    0 <= m < jobs@.len() ==> 0 <= #[trigger] origin[m] < i && job_for(
                        jobs@[m],
                        all[origin[m]],
                    ),
            decreases rest@.len(),
        {
            assert(rest@[0] == all[i as int]);
            let (attachment, track) = rest.remove(0);
            let ghost before = *self;
            proof {
                lemma_counts_cover(tracks.subrange(0, i as int));
            }
            let ghost jobs_before = jobs@;
            let job = self.take_track(attachment, track);
            proof {
                let done = tracks.subrange(0, i as int);
                let next = tracks.subrange(0, i + 1);
                assert(next.drop_last() =~= done);
                assert(next.last() == track);
                lemma_counts_cover(next);
            }
            match job {
                Some(j) => {
                    assert(job_for(j, all[i as int]));
                    jobs.push(j);
                    proof {
                        origin = origin.push(i as int);
                    }
                },
                None => {},
            }
            i = i + 1;
        }
        assert(i == all.len());
        assert(all == resolved@);
        assert(tracks.subrange(0, all.len() as int) =~= tracks);
        assert forall|m: int| 0 <= m < jobs@.len() implies launched_from(
            #[trigger] jobs@[m],
            resolved@,
        ) by {
            assert(job_for(jobs@[m], resolved@[origin[m]]));
        }
        jobs
    }

    /// Records how the running job `id` ended: a success joins the successes,
    /// a failure the failures, each after those recorded before.
    pub fn complete(&mut self, id: u64, result: Result<JobResult, MiitopiaError>)
        requires
            old(self).wf(),
            old(self).spec_pending().contains(id),
        ensures
            final(self).wf(),
            completes(*old(self), id, result, *final(self)),
    {
        let n = self.pending.len();
        let mut i: usize = 0;
        while i < n && self.pending[i] != id
            invariant
                n == self.pending@.len(),
                0 <= i <= n,
                forall|k: int| 0 <= k < i ==> self.pending@[k] != id,
            decreases n - i,
        {
            i = i + 1;
        }
        assert(i < n);
        let ghost before = self.pending@;
        self.pending.remove(i);
        assert forall|a: int, b: int|
            0 <= a < b < self.pending@.len() implies #[trigger] self.pending@[a]
            != #[trigger] self.pending@[b] by {
            let a0 = if a < i { a } else { a + 1 };
            let b0 = if b < i { b } else { b + 1 };
            assert(self.pending@[a] == before[a0]);
            assert(self.pending@[b] == before[b0]);
        }
        assert forall|a: int| 0 <= a < self.pending@.len() implies #[trigger] self.pending@[a]
            < self.next_id by {
            let a0 = if a < i { a } else { a + 1 };
            assert(self.pending@[a] == before[a0]);
        }
        match result {
            Ok(j) => {
                self.successes.push(j);
            },
            Err(e) => {
                self.failures.push(e);
                self.job_failures = Ghost(self.job_failures@ + 1);
            },
        }
    }

    /// What the batch came to.
    pub fn into_outcome(self) -> (r: Outcome)
        ensures
            r.successes@ == self.spec_successes(),
            r.failures@ == self.spec_failures(),
    {
        Outcome { successes: self.successes, failures: self.failures }
    }
}

/// How `take_track` takes the audio resolved for one attachment from `b0` to `b1`.
pub open spec fn takes_track(
    b0: Batch,
    attachment: Attachment,
    track: Result<(String, u64), MiitopiaError>,
    b1: Batch,
    job: Option<Job>,
) -> bool {
    &&& b1.spec_blocked() == b0.spec_blocked()
    &&& b1.spec_successes() == b0.spec_successes()
    &&& b1.spec_job_failures() == b0.spec_job_failures()
    &&& if b0.spec_blocked() {
        &&& job is None
        &&& b1.spec_pending() == b0.spec_pending()
        &&& b1.spec_next_id() == b0.spec_next_id()
        &&& b1.spec_failures() == b0.spec_failures()
        &&& b1.spec_rejected() == b0.spec_rejected()
    } else {
        match track {
            Err(e) => {
                &&& job is None
                &&& b1.spec_pending() == b0.spec_pending()
                &&& b1.spec_next_id() == b0.spec_next_id()
                &&& b1.spec_failures() == b0.spec_failures().push(e)
                &&& b1.spec_rejected() == b0.spec_rejected() + 1
            },
            Ok(seg) => {
                &&& job == Some(
                    Job {
                        id: b0.spec_next_id(),
                        audio_file: seg.0,
                        start_ms: seg.1,
                        duration_ms: MAX_LENGTH,
                        attachment,
                    },
                )
                &&& b1.spec_pending() == b0.spec_pending().push(b0.spec_next_id())
                &&& b1.spec_next_id() == b0.spec_next_id() + 1
                &&& b1.spec_failures() == b0.spec_failures()
                &&& b1.spec_rejected() == b0.spec_rejected()
            },
        }
    }
}

/// How `complete` records the end of the running job `id`, from `b0` to `b1`.
pub open spec fn completes(
    b0: Batch,
    id: u64,
    result: Result<JobResult, MiitopiaError>,
    b1: Batch,
) -> bool {
    &&& exists|i: int|
        0 <= i < b0.spec_pending().len() && #[trigger] b0.spec_pending()[i] == id
            && b1.spec_pending() == b0.spec_pending().remove(i)
    &&& b1.spec_next_id() == b0.spec_next_id()
    &&& b1.spec_blocked() == b0.spec_blocked()
    &&& b1.spec_rejected() == b0.spec_rejected()
    &&& match result {
        Ok(j) => {
            &&& b1.spec_successes() == b0.spec_successes().push(j)
            &&& b1.spec_failures() == b0.spec_failures()
            &&& b1.spec_job_failures() == b0.spec_job_failures()
        },
        Err(e) => {
            &&& b1.spec_successes() == b0.spec_successes()
            &&& b1.spec_failures() == b0.spec_failures().push(e)
            &&& b1.spec_job_failures() == b0.spec_job_failures() + 1
        },
    }
}

/// Once no job is running, each launched job has left exactly one success or
/// one failure, and each failed resolution exactly one failure, whatever order
/// the jobs finished in.
pub proof fn lemma_outcome_accounts_for_all(b: Batch)
    requires
        b.wf(),
        b.spec_pending().len() == 0,
    ensures
        b.spec_successes().len() + b.spec_job_failures() == b.spec_next_id(),
        b.spec_failures().len() == b.spec_rejected() + b.spec_job_failures(),
{
}

/// Of two jobs that succeed, the one that finishes first comes first among
/// the successes, whatever order they were launched in.
pub proof fn lemma_successes_in_finish_order(
    b0: Batch,
    first: u64,
    first_result: JobResult,
    b1: Batch,
    second: u64,
    second_result: JobResult,
    b2: Batch,
)
    requires
        completes(b0, first, Ok(first_result), b1),
        completes(b1, second, Ok(second_result), b2),
    ensures
        b2.spec_successes() == b0.spec_successes() + seq![first_result, second_result],
{
    assert(b2.spec_successes() =~= b0.spec_successes() + seq![first_result, second_result]);
}

/// An attachment whose declared media type is not an accepted one gets no
/// plan, so no transcoder is started for it; the error names its type.
pub proof fn lemma_refused_type_gets_no_plan(
    r: Result<TranscodePlan, MiitopiaError>,
    audio_file: String,
    start_ms: u64,
    duration_ms: u64,
    attachment: Attachment,
)
    requires
        is_plan_for(r, audio_file, start_ms, duration_ms, attachment),
        attachment.content_type matches Some(t) && media_kind(t@) is None,
    ensures
        r matches Err(MiitopiaError::UnsupportedFileType(m)) && m@
            == attachment.content_type->Some_0@,
{
}

/// The number of resolutions in `tracks` that succeeded.
pub open spec fn resolved_count(tracks: Seq<Result<(String, u64), MiitopiaError>>) -> nat
    decreases tracks.len(),
{
    if tracks.len() == 0 {
        0
    } else {
        resolved_count(tracks.drop_last()) + if tracks.last() is Ok {
            1nat
        } else {
            0nat
        }
    }
}

/// The number of resolutions in `tracks` that failed.
pub open spec fn failed_count(tracks: Seq<Result<(String, u64), MiitopiaError>>) -> nat
    decreases tracks.len(),
{
    if tracks.len() == 0 {
        0
    } else {
        failed_count(tracks.drop_last()) + if tracks.last() is Err {
            1nat
        } else {
            0nat
        }
    }
}

/// When a batch that launches jobs takes the tracks resolved for a run of
/// attachments, it launches one job per success and records one failure per
/// failed resolution.
pub proof fn lemma_resolutions_counted(
    bs: Seq<Batch>,
    attachments: Seq<Attachment>,
    tracks: Seq<Result<(String, u64), MiitopiaError>>,
    jobs: Seq<Option<Job>>,
)
    requires
        bs.len() == tracks.len() + 1,
        attachments.len() == tracks.len(),
        jobs.len() == tracks.len(),
        !bs[0].spec_blocked(),
        forall|k: int|
            0 <= k < tracks.len() ==> #[trigger] takes_track(
                bs[k],
                attachments[k],
                tracks[k],
                bs[k + 1],
                jobs[k],
            ),
    ensures
        bs.last().spec_next_id() == bs[0].spec_next_id() + resolved_count(tracks),
        bs.last().spec_rejected() == bs[0].spec_rejected() + failed_count(tracks),
        bs.last().spec_pending().len() == bs[0].spec_pending().len() + resolved_count(tracks),
        bs.last().spec_successes() == bs[0].spec_successes(),
        bs.last().spec_job_failures() == bs[0].spec_job_failures(),
        !bs.last().spec_blocked(),
    decreases tracks.len(),
{
    if tracks.len() > 0 {
        let n = tracks.len() - 1;
        let shorter = bs.drop_last();
        assert forall|k: int| 0 <= k < n implies #[trigger] takes_track(
            shorter[k],
            attachments.drop_last()[k],
            tracks.drop_last()[k],
            shorter[k + 1],
            jobs.drop_last()[k],
        ) by {
            assert(takes_track(bs[k], attachments[k], tracks[k], bs[k + 1], jobs[k]));
        }
        lemma_resolutions_counted(
            shorter,
            attachments.drop_last(),
            tracks.drop_last(),
            jobs.drop_last(),
        );
        assert(takes_track(bs[n], attachments[n], tracks[n], bs[n + 1], jobs[n]));
    }
}

/// As running jobs end, each leaves one success or one job failure, and the
/// launched jobs and failed resolutions stay as they were.
pub proof fn lemma_completions_counted(
    bs: Seq<Batch>,
    ids: Seq<u64>,
    results: Seq<Result<JobResult, MiitopiaError>>,
)
    requires
        bs.len() == ids.len() + 1,
        results.len() == ids.len(),
        forall|k: int|
            0 <= k < ids.len() ==> #[trigger] completes(bs[k], ids[k], results[k], bs[k + 1]),
    ensures
        bs.last().spec_next_id() == bs[0].spec_next_id(),
        bs.last().spec_rejected() == bs[0].spec_rejected(),
        bs.last().spec_successes().len() + bs.last().spec_job_failures()
            == bs[0].spec_successes().len() + bs[0].spec_job_failures() + ids.len(),
        bs.last().spec_pending().len() + ids.len() == bs[0].spec_pending().len(),
    decreases ids.len(),
{
    if ids.len() > 0 {
        let n = ids.len() - 1;
        let shorter = bs.drop_last();
        assert forall|k: int| 0 <= k < n implies #[trigger] completes(
            shorter[k],
            ids.drop_last()[k],
            results.drop_last()[k],
            shorter[k + 1],
        ) by {
            assert(completes(bs[k], ids[k], results[k], bs[k + 1]));
        }
        lemma_completions_counted(shorter, ids.drop_last(), results.drop_last());
        assert(completes(bs[n], ids[n], results[n], bs[n + 1]));
    }
}

proof fn lemma_counts_cover(tracks: Seq<Result<(String, u64), MiitopiaError>>)
    ensures
        resolved_count(tracks) + failed_count(tracks) == tracks.len(),
    decreases tracks.len(),
{
    if tracks.len() > 0 {
        lemma_counts_cover(tracks.drop_last());
    }
}

/// A message's batch, taking the tracks resolved for its attachments and then
/// seeing every launched job end in whatever order, comes to one entry per
/// attachment: a success or a job failure for each resolved track, and one
/// failure for each failed resolution.
pub proof fn lemma_every_attachment_accounted(
    taking: Seq<Batch>,
    attachments: Seq<Attachment>,
    tracks: Seq<Result<(String, u64), MiitopiaError>>,
    jobs: Seq<Option<Job>>,
    ending: Seq<Batch>,
    ids: Seq<u64>,
    results: Seq<Result<JobResult, MiitopiaError>>,
)
    requires
        taking.len() == tracks.len() + 1,
        attachments.len() == tracks.len(),
        jobs.len() == tracks.len(),
        !taking[0].spec_blocked(),
        taking[0].spec_next_id() == 0,
        taking[0].spec_pending().len() == 0,
        taking[0].spec_successes().len() == 0,
        taking[0].spec_job_failures() == 0,
        taking[0].spec_rejected() == 0,
        forall|k: int|
            0 <= k < tracks.len() ==> #[trigger] takes_track(
                taking[k],
                attachments[k],
                tracks[k],
                taking[k + 1],
                jobs[k],
            ),
        ending.len() == ids.len() + 1,
        results.len() == ids.len(),
        ending[0] == taking.last(),
        forall|k: int|
            0 <= k < ids.len() ==> #[trigger] completes(
                ending[k],
                ids[k],
                results[k],
                ending[k + 1],
            ),
        ending.last().wf(),
        ending.last().spec_pending().len() == 0,
    ensures
        ending.last().spec_successes().len() + ending.last().spec_job_failures() == resolved_count(
            tracks,
        ),
        ending.last().spec_failures().len() == failed_count(tracks)
            + ending.last().spec_job_failures(),
        ending.last().spec_successes().len() + ending.last().spec_failures().len() == tracks.len(),
{
    lemma_resolutions_counted(taking, attachments, tracks, jobs);
    lemma_completions_counted(ending, ids, results);
    lemma_counts_cover(tracks);
}

/// The resolutions of a run of attachments.
pub open spec fn track_seq(
    resolved: Seq<(Attachment, Result<(String, u64), MiitopiaError>)>,
) -> Seq<Result<(String, u64), MiitopiaError>> {
    resolved.map_values(|p: (Attachment, Result<(String, u64), MiitopiaError>)| p.1)
}

/// Whether `job` is the one launched for an attachment whose track resolved.
pub open spec fn job_for(job: Job, p: (Attachment, Result<(String, u64), MiitopiaError>)) -> bool {
    p.1 matches Ok(seg) && job.attachment == p.0 && job.audio_file == seg.0 && job.start_ms
        == seg.1 && job.duration_ms == MAX_LENGTH
}

/// Whether `job` was launched for one of the resolved attachments.
pub open spec fn launched_from(
    job: Job,
    resolved: Seq<(Attachment, Result<(String, u64), MiitopiaError>)>,
) -> bool {
    exists|k: int| 0 <= k < resolved.len() && #[trigger] job_for(job, resolved[k])
}

/// The failures among `tracks`, in order.
pub open spec fn errors_of(tracks: Seq<Result<(String, u64), MiitopiaError>>) -> Seq<MiitopiaError>
    decreases tracks.len(),
{
    if tracks.len() == 0 {
        Seq::empty()
    } else {
        match tracks.last() {
            Err(e) => errors_of(tracks.drop_last()).push(e),
            Ok(_) => errors_of(tracks.drop_last()),
        }
    }
}

proof fn lemma_no_failure(tracks: Seq<Result<(String, u64), MiitopiaError>>)
    requires
        forall|j: int| 0 <= j < tracks.len() ==> #[trigger] tracks[j] is Ok,
    ensures
        resolved_count(tracks) == tracks.len(),
        failed_count(tracks) == 0,
        errors_of(tracks) == Seq::<MiitopiaError>::empty(),
    decreases tracks.len(),
{
    if tracks.len() > 0 {
        let shorter = tracks.drop_last();
        assert forall|j: int| 0 <= j < shorter.len() implies #[trigger] shorter[j] is Ok by {
            assert(shorter[j] == tracks[j]);
        }
        lemma_no_failure(shorter);
        assert(tracks[tracks.len() - 1] is Ok);
    }
}

/// Of a message's attachments, when the track of exactly one fails to
/// resolve, every other one gets a job and that one's failure alone is
/// recorded: `take_tracks` then returns one job fewer than there are
/// attachments, none of them for the failed one.
pub proof fn lemma_one_failed_resolution(tracks: Seq<Result<(String, u64), MiitopiaError>>, k: int)
    requires
        0 <= k < tracks.len(),
        tracks[k] is Err,
        forall|j: int| 0 <= j < tracks.len() && j != k ==> #[trigger] tracks[j] is Ok,
    ensures
        resolved_count(tracks) == tracks.len() - 1,
        failed_count(tracks) == 1,
        errors_of(tracks) == seq![tracks[k]->Err_0],
    decreases tracks.len(),
{
    let n = tracks.len() - 1;
    let shorter = tracks.drop_last();
    if k < n {
        assert forall|j: int| 0 <= j < shorter.len() && j != k implies #[trigger] shorter[j] is Ok by {
            assert(shorter[j] == tracks[j]);
        }
        assert(shorter[k] == tracks[k]);
        lemma_one_failed_resolution(shorter, k);
        assert(tracks[n] is Ok);
    } else {
        assert forall|j: int| 0 <= j < shorter.len() implies #[trigger] shorter[j] is Ok by {
            assert(shorter[j] == tracks[j]);
        }
        lemma_no_failure(shorter);
        assert(errors_of(tracks) =~= seq![tracks[k]->Err_0]);
    }
}

} // verus!
