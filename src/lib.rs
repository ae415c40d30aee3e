//! Track resolution and media composition for a chat bot that sets user
//! images and videos to music.
//!
//! A message's text picks the audio source ([`AudioSource::from_msg_content`]);
//! each attachment gets a clip ([`AudioSource::get_track`]) and a transcoder
//! run ([`plan_job`], [`job_outcome`]); a [`Batch`] gathers the runs of one
//! message as they finish.

pub mod audio_source;
pub mod error;
pub mod library;
pub mod processor;
pub mod spotify;
pub mod text;

pub use audio_source::{AudioSource, Fetched};
pub use error::{ErrorEmbed, MiitopiaError};
pub use library::{scan_music, TrackLibrary, MAX_LENGTH};
pub use processor::{
    job_outcome, plan_job, Attachment, Batch, Job, JobResult, MediaKind, Outcome, Param,
    TranscodePlan,
};
pub use spotify::{ApiError, ErrorField, JsonField, Spotify, SpotifyError};
