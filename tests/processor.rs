use miitopia::{
    job_outcome, plan_job, AudioSource, Attachment, Batch, JobResult, MediaKind, MiitopiaError,
    Param, TrackLibrary, MAX_LENGTH,
};

fn attachment(id: u64, content_type: Option<&str>) -> Attachment {
    Attachment {
        id,
        filename: format!("file{}", id),
        url: format!("https://cdn.example/{}", id),
        content_type: content_type.map(|t| t.to_string()),
    }
}

fn kv(k: &str, v: &str) -> Param {
    Param::KeyValue(k.to_string(), v.to_string())
}

fn single(s: &str) -> Param {
    Param::Single(s.to_string())
}

fn result_for(id: u64) -> JobResult {
    JobResult {
        audio_file: "clip.ogg".to_string(),
        attachment: attachment(id, Some("image/png")),
        stderr: None,
        output_file: vec![id as u8],
        job_time_ms: 10 * id,
    }
}

#[test]
fn missing_type_is_invalid() {
    let r = plan_job("clip.ogg".to_string(), 0, MAX_LENGTH, attachment(1, None));
    assert_eq!(r.err(), Some(MiitopiaError::InvalidFileType));
}

#[test]
fn plain_text_attachment_gets_no_plan() {
    let r = plan_job("clip.ogg".to_string(), 0, MAX_LENGTH, attachment(1, Some("text/plain")));
    assert_eq!(r.err(), Some(MiitopiaError::UnsupportedFileType("text/plain".to_string())));
}

#[test]
fn still_image_plan() {
    let plan = plan_job("clip.ogg".to_string(), 12_345, MAX_LENGTH, attachment(1, Some("image/jpeg")))
        .ok()
        .unwrap();
    assert_eq!(plan.kind(), MediaKind::Still);
    assert_eq!(plan.audio_file(), "clip.ogg");
    assert_eq!(plan.attachment(), &attachment(1, Some("image/jpeg")));
    assert_eq!(
        plan.global_options(),
        &vec![single("hide_banner"), kv("loglevel", "error"), single("nostdin")]
    );
    assert_eq!(plan.audio_options(), &vec![kv("ss", "12.345"), kv("t", "10.000")]);
    assert_eq!(plan.visual_options(), &vec![kv("f", "image2pipe"), kv("framerate", "24")]);
    assert_eq!(
        plan.output_options(),
        &vec![
            kv("f", "webm"),
            kv("vf", "format=yuv420p"),
            kv("map", "0:a:0"),
            kv("map", "1:v:0"),
            kv("threads", "4"),
        ]
    );
}

#[test]
fn still_image_types() {
    for t in ["image/png", "image/jpeg", "image/webp", "image/bmp"] {
        let plan = plan_job("a".to_string(), 0, 1, attachment(1, Some(t))).ok().unwrap();
        assert_eq!(plan.kind(), MediaKind::Still);
    }
}

#[test]
fn animated_image_loops_and_stops_with_the_shorter_stream() {
    let plan = plan_job("a.ogg".to_string(), 0, MAX_LENGTH, attachment(2, Some("image/gif")))
        .ok()
        .unwrap();
    assert_eq!(plan.kind(), MediaKind::Animated);
    assert_eq!(plan.audio_options(), &vec![kv("ss", "0.000"), kv("t", "10.000")]);
    assert_eq!(plan.visual_options(), &vec![kv("f", "gif"), kv("stream_loop", "-1")]);
    assert_eq!(plan.output_options().last(), Some(&single("shortest")));
    assert_eq!(plan.output_options().len(), 6);
}

#[test]
fn video_passes_through() {
    let plan = plan_job("a.ogg".to_string(), 61_005, MAX_LENGTH, attachment(3, Some("video/webm")))
        .ok()
        .unwrap();
    assert_eq!(plan.kind(), MediaKind::Video);
    assert_eq!(plan.audio_options(), &vec![kv("ss", "61.005"), kv("t", "10.000")]);
    assert_eq!(plan.visual_options(), &vec![kv("f", "webm")]);
    assert_eq!(plan.output_options().last(), Some(&single("shortest")));
}

#[test]
fn failed_run_reports_trimmed_diagnostics() {
    let plan = plan_job("a.ogg".to_string(), 0, MAX_LENGTH, attachment(1, Some("image/png")))
        .ok()
        .unwrap();
    let r = job_outcome(plan, false, vec![1, 2, 3], b"boom".to_vec(), 5);
    assert_eq!(r, Err(MiitopiaError::Ffmpeg("boom".to_string())));
}

#[test]
fn failed_run_diagnostics_lose_surrounding_space() {
    let plan = plan_job("a.ogg".to_string(), 0, MAX_LENGTH, attachment(1, Some("image/png")))
        .ok()
        .unwrap();
    let r = job_outcome(plan, false, vec![], b"\n  pipe:0: Invalid data\n".to_vec(), 5);
    assert_eq!(r, Err(MiitopiaError::Ffmpeg("pipe:0: Invalid data".to_string())));
}

#[test]
fn failed_run_with_broken_text_is_decoded_lossily() {
    let plan = plan_job("a.ogg".to_string(), 0, MAX_LENGTH, attachment(1, Some("image/png")))
        .ok()
        .unwrap();
    let r = job_outcome(plan, false, vec![], vec![b'b', 0xff, b'x'], 5);
    assert_eq!(r, Err(MiitopiaError::Ffmpeg("b\u{fffd}x".to_string())));
}

#[test]
fn successful_run_gives_the_output() {
    let plan = plan_job("a.ogg".to_string(), 0, MAX_LENGTH, attachment(1, Some("image/png")))
        .ok()
        .unwrap();
    let r = job_outcome(plan, true, vec![7, 8, 9], b"  \n".to_vec(), 42).unwrap();
    assert_eq!(r.audio_file, "a.ogg");
    assert_eq!(r.attachment, attachment(1, Some("image/png")));
    assert_eq!(r.output_file, vec![7, 8, 9]);
    assert_eq!(r.stderr, None);
    assert_eq!(r.job_time_ms, 42);
}

#[test]
fn successful_run_keeps_its_diagnostics() {
    let plan = plan_job("a.ogg".to_string(), 0, MAX_LENGTH, attachment(1, Some("video/webm")))
        .ok()
        .unwrap();
    let r = job_outcome(plan, true, vec![], b" warning: odd frame \n".to_vec(), 1).unwrap();
    assert_eq!(r.stderr, Some("warning: odd frame".to_string()));
    let plan = plan_job("a.ogg".to_string(), 0, MAX_LENGTH, attachment(1, Some("video/webm")))
        .ok()
        .unwrap();
    let r = job_outcome(plan, true, vec![], vec![0xff, 0xfe], 1).unwrap();
    assert_eq!(r.stderr, None);
}

#[test]
fn one_failed_resolution_among_four_attachments() {
    let mut library = TrackLibrary::new();
    library.insert("clip.ogg".to_string(), 20_000);
    let mut batch = Batch::new(&AudioSource::Miitopia, &library);
    assert!(batch.accepts_jobs());
    let mut jobs = Vec::new();
    for id in 0..4u64 {
        let track = if id == 2 {
            Err(MiitopiaError::Reqwest("timed out".to_string()))
        } else {
            Ok(("clip.ogg".to_string(), 500))
        };
        if let Some(job) = batch.take_track(attachment(id, Some("image/png")), track) {
            assert_eq!(job.duration_ms, MAX_LENGTH);
            assert_eq!(job.start_ms, 500);
            jobs.push(job);
        }
    }
    assert_eq!(jobs.len(), 3);
    // The jobs finish in an order unlike their launch.
    for k in [2usize, 0, 1] {
        let id = jobs[k].id;
        assert!(batch.is_pending(id));
        let result = if k == 0 {
            Err(MiitopiaError::Ffmpeg("bad input".to_string()))
        } else {
            Ok(result_for(jobs[k].attachment.id))
        };
        batch.complete(id, result);
        assert!(!batch.is_pending(id));
    }
    assert!(batch.is_done());
    let outcome = batch.into_outcome();
    assert_eq!(outcome.successes.len() + outcome.failures.len(), 4);
    assert_eq!(outcome.successes, vec![result_for(3), result_for(1)]);
    assert_eq!(
        outcome.failures,
        vec![
            MiitopiaError::Reqwest("timed out".to_string()),
            MiitopiaError::Ffmpeg("bad input".to_string()),
        ]
    );
}

#[test]
fn successes_come_in_finish_order() {
    let library = TrackLibrary::new();
    let source = AudioSource::Url("https://x.example/a.ogg".to_string());
    let mut batch = Batch::new(&source, &library);
    let a = batch
        .take_track(attachment(1, Some("video/webm")), Ok(("https://x.example/a.ogg".to_string(), 0)))
        .unwrap();
    let b = batch
        .take_track(attachment(2, Some("image/png")), Ok(("https://x.example/a.ogg".to_string(), 0)))
        .unwrap();
    assert_ne!(a.id, b.id);
    batch.complete(b.id, Ok(result_for(2)));
    assert!(!batch.is_done());
    batch.complete(a.id, Ok(result_for(1)));
    assert!(batch.is_done());
    let outcome = batch.into_outcome();
    assert_eq!(outcome.successes, vec![result_for(2), result_for(1)]);
    assert!(outcome.failures.is_empty());
}

#[test]
fn empty_library_fails_once_and_launches_nothing() {
    let library = TrackLibrary::new();
    let mut batch = Batch::new(&AudioSource::Miitopia, &library);
    assert!(!batch.accepts_jobs());
    for id in 0..3u64 {
        let job = batch.take_track(attachment(id, Some("image/png")), Err(MiitopiaError::NoTracks));
        assert!(job.is_none());
    }
    assert!(batch.is_done());
    let outcome = batch.into_outcome();
    assert!(outcome.successes.is_empty());
    assert_eq!(outcome.failures, vec![MiitopiaError::NoTracks]);
}

#[test]
fn empty_library_fails_even_without_attachments() {
    let library = TrackLibrary::new();
    let batch = Batch::new(&AudioSource::Miitopia, &library);
    let outcome = batch.into_outcome();
    assert_eq!(outcome.failures, vec![MiitopiaError::NoTracks]);
}

#[test]
fn remote_source_is_not_blocked_by_an_empty_library() {
    let library = TrackLibrary::new();
    let batch = Batch::new(&AudioSource::Spotify("abc".to_string()), &library);
    assert!(batch.accepts_jobs());
    assert!(batch.into_outcome().failures.is_empty());
}

#[test]
fn tracks_of_a_message_taken_together() {
    let mut library = TrackLibrary::new();
    library.insert("clip.ogg".to_string(), 20_000);
    let mut batch = Batch::new(&AudioSource::Miitopia, &library);
    let resolved: Vec<_> = (0..5u64)
        .map(|id| {
            let track = if id == 1 {
                Err(MiitopiaError::Reqwest("timed out".to_string()))
            } else {
                Ok(("clip.ogg".to_string(), 100 * id))
            };
            (attachment(id, Some("image/gif")), track)
        })
        .collect();
    let jobs = batch.take_tracks(resolved);
    assert_eq!(jobs.len(), 4);
    assert!(jobs.iter().all(|j| j.attachment.id != 1));
    assert_eq!(
        jobs.iter().map(|j| j.start_ms).collect::<Vec<_>>(),
        vec![0, 200, 300, 400]
    );
    for job in jobs.iter().rev() {
        batch.complete(job.id, Ok(result_for(job.attachment.id)));
    }
    assert!(batch.is_done());
    let outcome = batch.into_outcome();
    assert_eq!(
        outcome.successes,
        vec![result_for(4), result_for(3), result_for(2), result_for(0)]
    );
    assert_eq!(outcome.failures, vec![MiitopiaError::Reqwest("timed out".to_string())]);
}

#[test]
fn blocked_batch_takes_no_tracks() {
    let library = TrackLibrary::new();
    let mut batch = Batch::new(&AudioSource::Miitopia, &library);
    let jobs = batch.take_tracks(vec![(attachment(0, Some("image/png")), Err(MiitopiaError::NoTracks))]);
    assert!(jobs.is_empty());
    assert_eq!(batch.into_outcome().failures, vec![MiitopiaError::NoTracks]);
}
