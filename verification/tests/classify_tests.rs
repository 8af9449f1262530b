use kisara::classify::{
    duration_arguments, has_subtitle_extension, select_longest, Classifier, ClassifyAction,
    ClassifyEvent, TorrentFileEntry, VideoCandidate, HEAD_BYTES,
};
use kisara::error::KisaraError;

fn entry(name: &str) -> TorrentFileEntry {
    TorrentFileEntry { relative_filename: name.to_string(), len: 1 }
}

fn mp4_head() -> Vec<u8> {
    let mut head = vec![0, 0, 0, 24];
    head.extend_from_slice(b"ftypisom");
    head.extend_from_slice(&[0; 16]);
    head
}

fn png_head() -> Vec<u8> {
    vec![0x89, 0x50, 0x4e, 0x47, 0x0d, 0x0a, 0x1a, 0x0a, 0, 0, 0, 0]
}

fn text_head() -> Vec<u8> {
    b"1\n00:00:01,000 --> 00:00:02,000\nHello\n".to_vec()
}

fn measured(micros: u64) -> ClassifyEvent {
    ClassifyEvent::ProbeFinished { success: true, stderr: String::new(), duration: Some(micros) }
}

fn candidate(path: &str, duration: u64) -> VideoCandidate {
    VideoCandidate { path: path.to_string(), duration }
}

fn expect_read(action: ClassifyAction, path: &str) {
    match action {
        ClassifyAction::ReadHead { path: p, limit } => {
            assert_eq!(p, path);
            assert_eq!(limit, 8192);
        }
        other => panic!("unexpected action {:?}", other),
    }
}

#[test]
fn the_head_of_a_file_is_eight_kibibytes() {
    assert_eq!(HEAD_BYTES, 8192);
}

#[test]
fn the_longest_video_is_selected() {
    let videos = vec![candidate("trailer.mp4", 5_000_000), candidate("episode.mp4", 1_400_000_000)];
    assert_eq!(select_longest(&videos), Some(1));
    let videos = vec![candidate("a", 9), candidate("b", 3), candidate("c", 7)];
    assert_eq!(select_longest(&videos), Some(0));
}

#[test]
fn of_equally_long_videos_the_first_is_selected() {
    let videos = vec![candidate("a", 3), candidate("b", 9), candidate("c", 9), candidate("d", 1)];
    assert_eq!(select_longest(&videos), Some(1));
    let videos = vec![candidate("a", 0), candidate("b", 0)];
    assert_eq!(select_longest(&videos), Some(0));
}

#[test]
fn nothing_is_selected_among_no_videos() {
    assert_eq!(select_longest(&Vec::new()), None);
}

#[test]
fn subtitle_files_are_known_by_their_extension() {
    assert!(has_subtitle_extension("/dl/sub.srt"));
    assert!(has_subtitle_extension("sub.sub"));
    assert!(has_subtitle_extension("sub.en.ass"));
    assert!(has_subtitle_extension("C:\\dl\\sub.vtt"));
    assert!(!has_subtitle_extension("/dl/episode.mp4"));
    assert!(!has_subtitle_extension("/dl/sub.SRT"));
    assert!(!has_subtitle_extension("/dl/srt"));
    assert!(!has_subtitle_extension("/dl/.srt"));
    assert!(!has_subtitle_extension("/dl/sub.srt/readme"));
}

#[test]
fn a_video_is_measured_by_the_probe() {
    let expected: Vec<String> = [
        "-v",
        "error",
        "-show_entries",
        "format=duration",
        "-of",
        "default=noprint_wrappers=1:nokey=1",
        "/dl/ep.mp4",
    ]
    .iter()
    .map(|s| s.to_string())
    .collect();
    assert_eq!(duration_arguments("/dl/ep.mp4"), expected);
}

#[test]
fn the_episode_is_the_longest_video_and_subtitles_are_kept() {
    let files = vec![entry("trailer.mp4"), entry("episode.mp4"), entry("sub.srt")];
    let c = Classifier::new("7", "/dl", &files);
    let (c, action) = c.advance(ClassifyEvent::Started);
    expect_read(action, "/dl/trailer.mp4");
    let (c, action) = c.advance(ClassifyEvent::Head(mp4_head()));
    match action {
        ClassifyAction::ProbeDuration(args) => assert_eq!(args[6], "/dl/trailer.mp4"),
        other => panic!("unexpected action {:?}", other),
    }
    let (c, action) = c.advance(measured(5_000_000));
    expect_read(action, "/dl/episode.mp4");
    let (c, action) = c.advance(ClassifyEvent::Head(mp4_head()));
    assert!(matches!(action, ClassifyAction::ProbeDuration(_)));
    let (c, action) = c.advance(measured(1_400_000_000));
    expect_read(action, "/dl/sub.srt");
    assert!(!c.is_done());
    let (c, action) = c.advance(ClassifyEvent::Head(text_head()));
    match action {
        ClassifyAction::Finished(Ok((video, subtitles))) => {
            assert_eq!(video, "/dl/episode.mp4");
            assert_eq!(subtitles, vec!["/dl/sub.srt".to_string()]);
        }
        other => panic!("unexpected action {:?}", other),
    }
    assert!(c.is_done());
}

#[test]
fn the_chosen_video_is_one_of_the_torrents_files() {
    let names = ["show/ep.mp4", "show/extras/preview.mp4", "show/sub.ass", "show/cover.png"];
    let files: Vec<TorrentFileEntry> = names.iter().map(|n| entry(n)).collect();
    let paths: Vec<String> = names.iter().map(|n| format!("/downloads/{}", n)).collect();
    let c = Classifier::new("3", "/downloads/", &files);
    let (c, _) = c.advance(ClassifyEvent::Started);
    let (c, _) = c.advance(ClassifyEvent::Head(mp4_head()));
    let (c, _) = c.advance(measured(10));
    let (c, _) = c.advance(ClassifyEvent::Head(mp4_head()));
    let (c, _) = c.advance(measured(10));
    let (c, _) = c.advance(ClassifyEvent::Head(Vec::new()));
    let (_, action) = c.advance(ClassifyEvent::Head(png_head()));
    match action {
        ClassifyAction::Finished(Ok((video, subtitles))) => {
            assert!(paths.contains(&video));
            assert_eq!(video, "/downloads/show/ep.mp4");
            assert_eq!(subtitles, vec!["/downloads/show/sub.ass".to_string()]);
        }
        other => panic!("unexpected action {:?}", other),
    }
}

#[test]
fn content_decides_what_a_video_is_not_the_name() {
    let files = vec![entry("movie.srt"), entry("notes.mp4")];
    let c = Classifier::new("1", "/dl", &files);
    let (c, _) = c.advance(ClassifyEvent::Started);
    // a video that is named like a subtitle file is a video
    let (c, action) = c.advance(ClassifyEvent::Head(mp4_head()));
    assert!(matches!(action, ClassifyAction::ProbeDuration(_)));
    let (c, _) = c.advance(measured(60));
    // a text that is named like a video is nothing
    let (_, action) = c.advance(ClassifyEvent::Head(text_head()));
    match action {
        ClassifyAction::Finished(Ok((video, subtitles))) => {
            assert_eq!(video, "/dl/movie.srt");
            assert!(subtitles.is_empty());
        }
        other => panic!("unexpected action {:?}", other),
    }
}

#[test]
fn a_torrent_without_a_video_is_an_error() {
    let files = vec![entry("sub.srt"), entry("cover.png")];
    let c = Classifier::new("12", "/dl", &files);
    let (c, _) = c.advance(ClassifyEvent::Started);
    let (c, _) = c.advance(ClassifyEvent::Head(text_head()));
    let (_, action) = c.advance(ClassifyEvent::Head(png_head()));
    match action {
        ClassifyAction::Finished(Err(KisaraError::NoVideoFoundInTorrent(id))) => {
            assert_eq!(id, "12")
        }
        other => panic!("unexpected action {:?}", other),
    }
}

#[test]
fn a_torrent_without_files_is_an_error() {
    let c = Classifier::new("5", "/dl", &Vec::new());
    let (c, action) = c.advance(ClassifyEvent::Started);
    assert!(matches!(
        action,
        ClassifyAction::Finished(Err(KisaraError::NoVideoFoundInTorrent(ref id))) if id == "5"
    ));
    assert!(c.is_done());
}

#[test]
fn a_file_that_cannot_be_read_ends_the_classification() {
    let files = vec![entry("a.mp4"), entry("b.mp4")];
    let c = Classifier::new("1", "/dl", &files);
    let (c, _) = c.advance(ClassifyEvent::Started);
    let (c, _) = c.advance(ClassifyEvent::Head(mp4_head()));
    let (c, _) = c.advance(measured(100));
    let (c, action) = c.advance(ClassifyEvent::ReadFailed("permission denied".to_string()));
    match action {
        ClassifyAction::Finished(Err(KisaraError::StdIOError(why))) => {
            assert_eq!(why, "permission denied")
        }
        other => panic!("unexpected action {:?}", other),
    }
    assert!(c.is_done());
}

#[test]
fn a_failing_probe_ends_the_classification() {
    let files = vec![entry("a.mp4")];
    let c = Classifier::new("1", "/dl", &files);
    let (c, _) = c.advance(ClassifyEvent::Started);
    let (c, _) = c.advance(ClassifyEvent::Head(mp4_head()));
    let (_, action) = c.advance(ClassifyEvent::ProbeFinished {
        success: false,
        stderr: "moov atom not found".to_string(),
        duration: None,
    });
    match action {
        ClassifyAction::Finished(Err(KisaraError::CommandFailed(why))) => {
            assert_eq!(why, "moov atom not found")
        }
        other => panic!("unexpected action {:?}", other),
    }
}

#[test]
fn a_probe_that_prints_no_number_ends_the_classification() {
    let files = vec![entry("a.mp4")];
    let c = Classifier::new("1", "/dl", &files);
    let (c, _) = c.advance(ClassifyEvent::Started);
    let (c, _) = c.advance(ClassifyEvent::Head(mp4_head()));
    let (_, action) = c.advance(ClassifyEvent::ProbeFinished {
        success: true,
        stderr: String::new(),
        duration: None,
    });
    match action {
        ClassifyAction::Finished(Err(KisaraError::CommandFailed(why))) => {
            assert_eq!(why, "Failed to parse duration")
        }
        other => panic!("unexpected action {:?}", other),
    }
}

#[test]
fn a_probe_that_does_not_start_ends_the_classification() {
    let files = vec![entry("a.mp4")];
    let c = Classifier::new("1", "/dl", &files);
    let (c, _) = c.advance(ClassifyEvent::Started);
    let (c, _) = c.advance(ClassifyEvent::Head(mp4_head()));
    let (_, action) = c.advance(ClassifyEvent::ProbeNotStarted("no ffprobe".to_string()));
    assert!(matches!(
        action,
        ClassifyAction::Finished(Err(KisaraError::StdIOError(ref why))) if why == "no ffprobe"
    ));
}

#[test]
fn an_event_that_answers_nothing_ends_the_classification() {
    let files = vec![entry("a.mp4")];
    let c = Classifier::new("1", "/dl", &files);
    let (c, action) = c.advance(measured(1));
    assert!(matches!(
        action,
        ClassifyAction::Finished(Err(KisaraError::Any(ref why))) if why == "unexpected event"
    ));
    let (_, action) = c.advance(ClassifyEvent::Started);
    assert!(matches!(action, ClassifyAction::Finished(Err(_))));
}
