use kisara::error::KisaraError;
use kisara::paths::{extension, file_name};
use kisara::subtitle::{
    cached_subtitles, convert_arguments, extract_arguments, lines, parse_streams, probe_arguments,
    transform_subtitles, NormalizeAction, NormalizeEvent, Phase, SubtitleJob, SubtitleStream,
};

fn strings(items: &[&str]) -> Vec<String> {
    items.iter().map(|s| s.to_string()).collect()
}

fn tool_ok(stdout: &str) -> NormalizeEvent {
    NormalizeEvent::ToolFinished {
        success: true,
        stdout: stdout.to_string(),
        stderr: String::new(),
    }
}

fn tool_failed(stderr: &str) -> NormalizeEvent {
    NormalizeEvent::ToolFinished {
        success: false,
        stdout: String::new(),
        stderr: stderr.to_string(),
    }
}

/// Runs a job over the events and returns the job and the last action.
fn drive(job: SubtitleJob, events: Vec<NormalizeEvent>) -> (SubtitleJob, Vec<NormalizeAction>) {
    let mut job = job;
    let mut actions = Vec::new();
    for event in events {
        let (next, action) = job.advance(event);
        job = next;
        actions.push(action);
    }
    (job, actions)
}

fn to_probe(video: &str, externals: &[String]) -> (SubtitleJob, Vec<NormalizeAction>) {
    drive(
        transform_subtitles("/dl", video, externals),
        vec![
            NormalizeEvent::Started,
            NormalizeEvent::DirectoryReady,
            NormalizeEvent::DirectoryReady,
            NormalizeEvent::Exists(false),
        ],
    )
}

#[test]
fn lines_end_at_line_feeds() {
    assert_eq!(lines("a\nb\nc"), strings(&["a", "b", "c"]));
    assert_eq!(lines("a\nb\n"), strings(&["a", "b"]));
    assert_eq!(lines("a\r\nb\r\n"), strings(&["a", "b"]));
    assert_eq!(lines(""), Vec::<String>::new());
    assert_eq!(lines("\n"), strings(&[""]));
    assert_eq!(lines("a\n\nb"), strings(&["a", "", "b"]));
    assert_eq!(lines("a\r"), strings(&["a\r"]));
}

#[test]
fn lines_agree_with_the_standard_library() {
    for text in ["", "\n", "a", "a\n", "a\r\n", "a\nb", "a\n\n", "\r\n\r\n", "a\rb\n", "x\r"] {
        let std: Vec<String> = text.lines().map(|s| s.to_string()).collect();
        assert_eq!(lines(text), std, "on {:?}", text);
    }
}

#[test]
fn streams_are_read_from_the_probe_output() {
    let streams = parse_streams("2,eng,English\n3,jpn,Japanese Signs\n");
    assert_eq!(streams.len(), 2);
    assert_eq!(streams[0].index, "2");
    assert_eq!(streams[0].language, "eng");
    assert_eq!(streams[0].title, "English");
    assert_eq!(streams[1].index, "3");
    assert_eq!(streams[1].language, "jpn");
    assert_eq!(streams[1].title, "Japanese Signs");
}

#[test]
fn lines_with_fewer_than_three_fields_are_passed_over() {
    let streams = parse_streams("2,eng\n\n3,jpn,Signs,extra\r\n4\n");
    assert_eq!(streams.len(), 1);
    assert_eq!(streams[0].index, "3");
    assert_eq!(streams[0].language, "jpn");
    assert_eq!(streams[0].title, "Signs");
    assert_eq!(parse_streams("").len(), 0);
}

#[test]
fn the_probe_is_asked_for_subtitle_streams() {
    assert_eq!(
        probe_arguments("/dl/ep.mkv"),
        strings(&[
            "-v",
            "error",
            "-select_streams",
            "s",
            "-show_entries",
            "stream=index:stream_tags=language,title",
            "-of",
            "csv=p=0",
            "/dl/ep.mkv",
        ])
    );
}

#[test]
fn an_embedded_stream_is_extracted_with_its_tags() {
    let stream = SubtitleStream {
        index: "2".to_string(),
        language: "eng".to_string(),
        title: "English".to_string(),
    };
    assert_eq!(
        extract_arguments("/dl/ep.mkv", &stream, "/dl/subtitles/ep.mkv/English.vtt"),
        strings(&[
            "-i",
            "/dl/ep.mkv",
            "-map",
            "0:2",
            "-c:s",
            "webvtt",
            "-metadata",
            "language=eng",
            "-metadata",
            "title=English",
            "/dl/subtitles/ep.mkv/English.vtt",
        ])
    );
}

#[test]
fn a_subtitle_file_is_converted_as_a_whole() {
    assert_eq!(
        convert_arguments("/dl/sub.srt", "/dl/subtitles/ep.mkv/sub.vtt"),
        strings(&["-i", "/dl/sub.srt", "-c:s", "webvtt", "/dl/subtitles/ep.mkv/sub.vtt"])
    );
}

#[test]
fn only_vtt_entries_are_cached_subtitles() {
    let entries = strings(&[
        "/dl/subtitles/ep.mkv/English.vtt",
        "/dl/subtitles/ep.mkv/.kisara",
        "/dl/subtitles/ep.mkv/notes.txt",
        "/dl/subtitles/ep.mkv/sub.vtt",
        "/dl/subtitles/ep.mkv/vtt",
    ]);
    assert_eq!(
        cached_subtitles(&entries),
        strings(&["/dl/subtitles/ep.mkv/English.vtt", "/dl/subtitles/ep.mkv/sub.vtt"])
    );
}

#[test]
fn the_directories_are_asked_for_first() {
    let job = transform_subtitles("/dl", "/dl/show/ep.mkv", &[]);
    assert_eq!(job.phase(), Phase::Created);
    let (job, action) = job.advance(NormalizeEvent::Started);
    assert!(matches!(action, NormalizeAction::EnsureDirectory(ref d) if d == "/dl/subtitles"));
    let (job, action) = job.advance(NormalizeEvent::DirectoryReady);
    assert!(
        matches!(action, NormalizeAction::EnsureDirectory(ref d) if d == "/dl/subtitles/ep.mkv")
    );
    let (job, action) = job.advance(NormalizeEvent::DirectoryReady);
    assert!(
        matches!(action, NormalizeAction::CheckExists(ref m) if m == "/dl/subtitles/ep.mkv/.kisara")
    );
    assert_eq!(job.phase(), Phase::CheckingMarker);
    assert!(!job.is_done());
}

#[test]
fn with_the_marker_present_the_cache_is_read_and_no_tool_runs() {
    let listing = strings(&[
        "/dl/subtitles/ep.mkv/English.vtt",
        "/dl/subtitles/ep.mkv/.kisara",
        "/dl/subtitles/ep.mkv/sub.vtt",
    ]);
    let mut answers = Vec::new();
    for _ in 0..2 {
        let (job, actions) = drive(
            transform_subtitles("/dl", "/dl/ep.mkv", &strings(&["/dl/sub.srt"])),
            vec![
                NormalizeEvent::Started,
                NormalizeEvent::DirectoryReady,
                NormalizeEvent::DirectoryReady,
                NormalizeEvent::Exists(true),
                NormalizeEvent::Listing(listing.clone()),
            ],
        );
        assert!(job.is_done());
        for action in &actions {
            assert!(!matches!(
                action,
                NormalizeAction::RunProbe(_)
                    | NormalizeAction::RunConvert(_)
                    | NormalizeAction::WriteMarker(_)
            ));
        }
        assert!(
            matches!(actions[3], NormalizeAction::ListDirectory(ref d) if d == "/dl/subtitles/ep.mkv")
        );
        match &actions[4] {
            NormalizeAction::Finished(Ok(list)) => answers.push(list.clone()),
            other => panic!("unexpected action {:?}", other),
        }
    }
    assert_eq!(
        answers[0],
        strings(&["/dl/subtitles/ep.mkv/English.vtt", "/dl/subtitles/ep.mkv/sub.vtt"])
    );
    assert_eq!(answers[0], answers[1]);
}

#[test]
fn without_the_marker_everything_is_converted_and_the_marker_comes_last() {
    let externals = strings(&["/dl/show/sub.srt"]);
    let (job, actions) = to_probe("/dl/show/ep.mkv", &externals);
    assert!(matches!(actions[3], NormalizeAction::RunProbe(_)));
    let (job, action) = job.advance(tool_ok("2,eng,English\n3,jpn,Signs\n"));
    assert!(
        matches!(action, NormalizeAction::CheckExists(ref t) if t == "/dl/subtitles/ep.mkv/English.vtt")
    );
    let (job, action) = job.advance(NormalizeEvent::Exists(false));
    match action {
        NormalizeAction::RunConvert(args) => {
            assert_eq!(args[3], "0:2");
            assert_eq!(args[10], "/dl/subtitles/ep.mkv/English.vtt");
        }
        other => panic!("unexpected action {:?}", other),
    }
    let (job, action) = job.advance(tool_ok(""));
    assert!(
        matches!(action, NormalizeAction::CheckExists(ref t) if t == "/dl/subtitles/ep.mkv/Signs.vtt")
    );
    // the second stream is in the cache already: it is not converted again
    let (job, action) = job.advance(NormalizeEvent::Exists(true));
    assert!(matches!(action, NormalizeAction::CheckExists(ref t) if t == "/dl/show/sub.srt"));
    let (job, action) = job.advance(NormalizeEvent::Exists(true));
    assert!(
        matches!(action, NormalizeAction::CheckExists(ref t) if t == "/dl/subtitles/ep.mkv/sub.vtt")
    );
    let (job, action) = job.advance(NormalizeEvent::Exists(false));
    match action {
        NormalizeAction::RunConvert(args) => assert_eq!(
            args,
            strings(&["-i", "/dl/show/sub.srt", "-c:s", "webvtt", "/dl/subtitles/ep.mkv/sub.vtt"])
        ),
        other => panic!("unexpected action {:?}", other),
    }
    let (job, action) = job.advance(tool_ok(""));
    assert!(
        matches!(action, NormalizeAction::WriteMarker(ref m) if m == "/dl/subtitles/ep.mkv/.kisara")
    );
    assert_eq!(job.phase(), Phase::WritingMarker);
    let (job, action) = job.advance(NormalizeEvent::MarkerWritten);
    match action {
        NormalizeAction::Finished(Ok(list)) => assert_eq!(
            list,
            strings(&[
                "/dl/subtitles/ep.mkv/English.vtt",
                "/dl/subtitles/ep.mkv/Signs.vtt",
                "/dl/subtitles/ep.mkv/sub.vtt",
            ])
        ),
        other => panic!("unexpected action {:?}", other),
    }
    assert!(job.is_done());
}

#[test]
fn a_video_without_subtitles_gets_its_marker_at_once() {
    let (job, _) = to_probe("/dl/ep.mkv", &[]);
    let (job, action) = job.advance(tool_ok(""));
    assert!(matches!(action, NormalizeAction::WriteMarker(_)));
    let (_, action) = job.advance(NormalizeEvent::MarkerWritten);
    assert!(matches!(action, NormalizeAction::Finished(Ok(ref list)) if list.is_empty()));
}

#[test]
fn a_video_path_without_a_file_name_is_refused() {
    let (job, actions) = drive(
        transform_subtitles("/dl", "/dl/show/", &[]),
        vec![NormalizeEvent::Started, NormalizeEvent::DirectoryReady],
    );
    assert!(job.is_done());
    match &actions[1] {
        NormalizeAction::Finished(Err(KisaraError::Any(why))) => {
            assert_eq!(why, "Invalid video name")
        }
        other => panic!("unexpected action {:?}", other),
    }
}

#[test]
fn a_failing_probe_ends_the_job_without_a_marker() {
    let (job, _) = to_probe("/dl/ep.mkv", &[]);
    let (job, action) = job.advance(tool_failed("no such file"));
    match action {
        NormalizeAction::Finished(Err(KisaraError::Any(why))) => {
            assert_eq!(why, "ffprobe failed: no such file")
        }
        other => panic!("unexpected action {:?}", other),
    }
    assert!(job.is_done());
    let (_, action) = job.advance(NormalizeEvent::MarkerWritten);
    assert!(matches!(action, NormalizeAction::Finished(Err(_))));
}

#[test]
fn a_probe_that_does_not_start_ends_the_job() {
    let (job, _) = to_probe("/dl/ep.mkv", &[]);
    let (_, action) = job.advance(NormalizeEvent::ToolNotStarted("not found".to_string()));
    match action {
        NormalizeAction::Finished(Err(KisaraError::Any(why))) => {
            assert_eq!(why, "Failed to run ffprobe: not found")
        }
        other => panic!("unexpected action {:?}", other),
    }
}

#[test]
fn a_failing_conversion_ends_the_job_without_a_marker() {
    let (job, _) = to_probe("/dl/ep.mkv", &[]);
    let (job, _) = job.advance(tool_ok("2,eng,English\n"));
    let (job, action) = job.advance(NormalizeEvent::Exists(false));
    assert!(matches!(action, NormalizeAction::RunConvert(_)));
    let (job, action) = job.advance(tool_failed("bad stream"));
    match action {
        NormalizeAction::Finished(Err(KisaraError::Any(why))) => {
            assert_eq!(why, "ffmpeg failed: bad stream")
        }
        other => panic!("unexpected action {:?}", other),
    }
    assert!(job.is_done());
}

#[test]
fn a_conversion_that_does_not_start_ends_the_job() {
    let (job, _) = to_probe("/dl/ep.mkv", &strings(&["/dl/sub.ass"]));
    let (job, _) = job.advance(tool_ok(""));
    let (job, _) = job.advance(NormalizeEvent::Exists(true));
    let (job, action) = job.advance(NormalizeEvent::Exists(false));
    assert!(matches!(action, NormalizeAction::RunConvert(_)));
    let (_, action) = job.advance(NormalizeEvent::ToolNotStarted("denied".to_string()));
    match action {
        NormalizeAction::Finished(Err(KisaraError::Any(why))) => {
            assert_eq!(why, "Failed to run ffmpeg: denied")
        }
        other => panic!("unexpected action {:?}", other),
    }
}

#[test]
fn a_missing_subtitle_file_ends_the_job() {
    let (job, _) = to_probe("/dl/ep.mkv", &strings(&["/dl/gone.srt"]));
    let (job, action) = job.advance(tool_ok(""));
    assert!(matches!(action, NormalizeAction::CheckExists(ref p) if p == "/dl/gone.srt"));
    let (job, action) = job.advance(NormalizeEvent::Exists(false));
    match action {
        NormalizeAction::Finished(Err(KisaraError::Any(why))) => {
            assert_eq!(why, "Subtitle file does not exist: /dl/gone.srt")
        }
        other => panic!("unexpected action {:?}", other),
    }
    assert!(job.is_done());
}

#[test]
fn a_subtitle_path_without_a_file_name_is_refused() {
    let (job, _) = to_probe("/dl/ep.mkv", &strings(&["/dl/subs/"]));
    let (job, _) = job.advance(tool_ok(""));
    let (_, action) = job.advance(NormalizeEvent::Exists(true));
    match action {
        NormalizeAction::Finished(Err(KisaraError::InvalidPath(path))) => {
            assert_eq!(path, "/dl/subs/")
        }
        other => panic!("unexpected action {:?}", other),
    }
}

#[test]
fn a_failed_file_operation_ends_the_job() {
    let job = transform_subtitles("/dl", "/dl/ep.mkv", &[]);
    let (job, _) = job.advance(NormalizeEvent::Started);
    let (job, action) = job.advance(NormalizeEvent::IoFailed("read-only".to_string()));
    match action {
        NormalizeAction::Finished(Err(KisaraError::StdIOError(why))) => {
            assert_eq!(why, "read-only")
        }
        other => panic!("unexpected action {:?}", other),
    }
    assert!(job.is_done());
}

#[test]
fn an_event_that_answers_nothing_ends_the_job() {
    let job = transform_subtitles("/dl", "/dl/ep.mkv", &[]);
    let (job, action) = job.advance(NormalizeEvent::MarkerWritten);
    match action {
        NormalizeAction::Finished(Err(KisaraError::Any(why))) => {
            assert_eq!(why, "unexpected event")
        }
        other => panic!("unexpected action {:?}", other),
    }
    let (_, action) = job.advance(NormalizeEvent::Started);
    assert!(matches!(action, NormalizeAction::Finished(Err(_))));
}

#[test]
fn every_normalised_subtitle_is_a_vtt_file_of_the_cache() {
    let externals = strings(&["/dl/show/sub.en.srt", "/dl/show/.hidden", "C:\\subs\\plain"]);
    let (job, _) = to_probe("/dl/show/ep.mkv", &externals);
    let mut job = job;
    let mut event = tool_ok("2,eng,English\n3,jpn,Signs & Songs\n");
    let list = loop {
        let (next, action) = job.advance(event);
        job = next;
        event = match action {
            NormalizeAction::CheckExists(_) => NormalizeEvent::Exists(true),
            NormalizeAction::WriteMarker(_) => NormalizeEvent::MarkerWritten,
            NormalizeAction::Finished(Ok(list)) => break list,
            other => panic!("unexpected action {:?}", other),
        };
    };
    assert_eq!(
        list,
        strings(&[
            "/dl/subtitles/ep.mkv/English.vtt",
            "/dl/subtitles/ep.mkv/Signs & Songs.vtt",
            "/dl/subtitles/ep.mkv/sub.en.vtt",
            "/dl/subtitles/ep.mkv/.hidden.vtt",
            "/dl/subtitles/ep.mkv/plain.vtt",
        ])
    );
    for path in &list {
        assert_eq!(extension(path), Some("vtt".to_string()));
        assert!(path.starts_with("/dl/subtitles/ep.mkv/"));
        assert_eq!(format!("/dl/subtitles/ep.mkv/{}", file_name(path)), *path);
    }
    assert_eq!(cached_subtitles(&list), list);
}

#[test]
fn a_stream_without_a_title_gets_a_file_that_has_no_extension() {
    let (job, _) = to_probe("/dl/ep.mkv", &[]);
    let (_, action) = job.advance(tool_ok("2,eng,\n"));
    match action {
        NormalizeAction::CheckExists(target) => {
            assert_eq!(target, "/dl/subtitles/ep.mkv/.vtt");
            assert_eq!(extension(&target), None);
        }
        other => panic!("unexpected action {:?}", other),
    }
}
