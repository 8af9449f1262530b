//! Picking the episode out of a torrent's files. A file whose content is that
//! of a video is a candidate, and the longest candidate is the episode: a
//! trailer or a preview is shorter. A file that is no video and has a
//! subtitle extension is one of the episode's subtitle files.
//!
//! The library decides and the caller acts: a [`Classifier`] asks for the
//! head of a file or for the duration of a video, the caller reads or probes
//! and reports, and the classifier asks again or ends with its choice.

use vstd::prelude::*;
use crate::error::{KisaraError, KisaraErrorView};
use crate::paths::{extension, extension_of, join, join_of};
use crate::text::{push_text, str_equal};

verus! {

/// The kinds of content that sniffing tells apart.
#[derive(Debug, Clone, Copy, PartialEq, Eq, Structural)]
pub enum MediaKind {
    App,
    Archive,
    Audio,
    Book,
    Doc,
    Font,
    Image,
    Text,
    Video,
    Custom,
}

/// The kind of content that a file's first bytes show, if they show one.
pub uninterp spec fn sniffed_kind(head: Seq<u8>) -> Option<MediaKind>;

/// Calls `infer::get` and keeps the matcher type of what it finds: the kind
/// that `sniffed_kind` names, `None` where no known format matches.
#[verifier::external_body]
fn sniff(head: &[u8]) -> (kind: Option<MediaKind>)
    ensures
        kind == sniffed_kind(head@),
{
    infer::get(head).map(|found| match found.matcher_type() {
        infer::MatcherType::App => MediaKind::App,
        infer::MatcherType::Archive => MediaKind::Archive,
        infer::MatcherType::Audio => MediaKind::Audio,
        infer::MatcherType::Book => MediaKind::Book,
        infer::MatcherType::Doc => MediaKind::Doc,
        infer::MatcherType::Font => MediaKind::Font,
        infer::MatcherType::Image => MediaKind::Image,
        infer::MatcherType::Text => MediaKind::Text,
        infer::MatcherType::Video => MediaKind::Video,
        infer::MatcherType::Custom => MediaKind::Custom,
    })
}

/// How many bytes of a file are looked at to tell its kind.
pub const HEAD_BYTES: usize = 8192;

/// One file of a torrent, as the download engine lists it.
#[derive(Debug)]
pub struct TorrentFileEntry {
    /// The file's path below the download folder.
    pub relative_filename: String,
    /// The file's size in bytes.
    pub len: u64,
}

/// A video among a torrent's files.
#[derive(Debug)]
pub struct VideoCandidate {
    /// The path of the file.
    pub path: String,
    /// How long the video plays, in microseconds.
    pub duration: u64,
}

/// The mathematical value of a [`VideoCandidate`].
pub struct VideoCandidateView {
    pub path: Seq<char>,
    pub duration: u64,
}

impl DeepView for VideoCandidate {
    type V = VideoCandidateView;

    open spec fn deep_view(&self) -> VideoCandidateView {
        VideoCandidateView { path: self.path@, duration: self.duration }
    }
}

/// The candidate that is the episode: the first of those that play longest.
/// It is -1 where there is no candidate.
pub open spec fn longest_of(videos: Seq<VideoCandidateView>) -> int
    decreases videos.len(),
{
    if videos.len() == 0 {
        -1
    } else {
        let before = longest_of(videos.drop_last());
        if before >= 0 && videos[before].duration >= videos.last().duration {
            before
        } else {
            videos.len() - 1
        }
    }
}

/// The chosen candidate plays at least as long as every other, and longer
/// than every candidate before it. There is a choice exactly when there is a
/// candidate.
pub proof fn law_longest_is_longest(videos: Seq<VideoCandidateView>)
    ensures
        -1 <= longest_of(videos) < videos.len(),
        longest_of(videos) == -1 <==> videos.len() == 0,
        forall|j: int|
            0 <= j < videos.len() ==> (#[trigger] videos[j]).duration
                <= videos[longest_of(videos)].duration,
        forall|j: int|
            0 <= j < longest_of(videos) ==> (#[trigger] videos[j]).duration
                < videos[longest_of(videos)].duration,
    decreases videos.len(),
{
    if videos.len() > 0 {
        let rest = videos.drop_last();
        law_longest_is_longest(rest);
        assert forall|j: int| 0 <= j < videos.len() implies (#[trigger] videos[j]).duration
            <= videos[longest_of(videos)].duration by {
            if j < rest.len() {
                assert(videos[j] == rest[j]);
            }
        }
        assert forall|j: int| 0 <= j < longest_of(videos) implies (#[trigger] videos[j]).duration
            < videos[longest_of(videos)].duration by {
            assert(videos[j] == rest[j]);
        }
    }
}

/// Finds the candidate that is the episode.
pub fn select_longest(videos: &Vec<VideoCandidate>) -> (best: Option<usize>)
    ensures
        best is None <==> longest_of(videos.deep_view()) == -1,
        best is Some ==> best->0 == longest_of(videos.deep_view()) && best->0 < videos.len(),
{
    let mut best: Option<usize> = None;
    let mut i: usize = 0;
    assert(videos.deep_view().take(0) =~= Seq::<VideoCandidateView>::empty());
    while i < videos.len()
        invariant
            i <= videos.len(),
            best is None <==> longest_of(videos.deep_view().take(i as int)) == -1,
            best is Some ==> best->0 == longest_of(videos.deep_view().take(i as int)) && best->0
                < i,
        decreases videos.len() - i,
    {
        let ghost upto = videos.deep_view().take(i + 1);
        assert(upto.drop_last() =~= videos.deep_view().take(i as int));
        assert(upto.last() == videos[i as int].deep_view());
        best = match best {
            Some(b) => {
                assert(upto[b as int] == videos[b as int].deep_view());
                if videos[b].duration >= videos[i].duration {
                    Some(b)
                } else {
                    Some(i)
                }
            },
            None => Some(i),
        };
        i += 1;
    }
    assert(videos.deep_view().take(i as int) =~= videos.deep_view());
    best
}

/// Whether a path has one of the extensions of a subtitle file: `srt`,
/// `sub`, `ass` or `vtt`.
pub open spec fn is_subtitle_path(path: Seq<char>) -> bool {
    extension_of(path) == Some("srt"@) || extension_of(path) == Some("sub"@) || extension_of(path)
        == Some("ass"@) || extension_of(path) == Some("vtt"@)
}

/// Whether a path has the extension of a subtitle file.
pub fn has_subtitle_extension(path: &str) -> (b: bool)
    ensures
        b == is_subtitle_path(path@),
{
    match extension(path) {
        Some(ext) => {
            str_equal(ext.as_str(), "srt") || str_equal(ext.as_str(), "sub") || str_equal(
                ext.as_str(),
                "ass",
            ) || str_equal(ext.as_str(), "vtt")
        },
        None => false,
    }
}

/// The arguments with which the probe tool prints how long a video plays, in
/// seconds.
pub open spec fn duration_arguments_of(path: Seq<char>) -> Seq<Seq<char>> {
    seq![
        "-v"@,
        "error"@,
        "-show_entries"@,
        "format=duration"@,
        "-of"@,
        "default=noprint_wrappers=1:nokey=1"@,
        path,
    ]
}

/// The arguments of the probe run that measures a video.
pub fn duration_arguments(path: &str) -> (args: Vec<String>)
    ensures
        args.deep_view() == duration_arguments_of(path@),
{
    let mut args: Vec<String> = Vec::new();
    push_text(&mut args, String::from_str("-v"));
    push_text(&mut args, String::from_str("error"));
    push_text(&mut args, String::from_str("-show_entries"));
    push_text(&mut args, String::from_str("format=duration"));
    push_text(&mut args, String::from_str("-of"));
    push_text(&mut args, String::from_str("default=noprint_wrappers=1:nokey=1"));
    push_text(&mut args, String::from_str(path));
    assert(args.deep_view() =~= duration_arguments_of(path@));
    args
}

/// What the caller reports to a [`Classifier`].
#[derive(Debug)]
pub enum ClassifyEvent {
    /// The work begins.
    Started,
    /// The first bytes of the file asked about.
    Head(Vec<u8>),
    /// The file asked about could not be read, and why.
    ReadFailed(String),
    /// The probe ran: whether it ended well, what it printed as an error, and
    /// the duration it measured in microseconds, if it printed a number.
    ProbeFinished { success: bool, stderr: String, duration: Option<u64> },
    /// The probe could not be started, and why.
    ProbeNotStarted(String),
}

/// The mathematical value of a [`ClassifyEvent`].
pub enum ClassifyEventView {
    Started,
    Head(Seq<u8>),
    ReadFailed(Seq<char>),
    ProbeFinished { success: bool, stderr: Seq<char>, duration: Option<u64> },
    ProbeNotStarted(Seq<char>),
}

impl View for ClassifyEvent {
    type V = ClassifyEventView;

    open spec fn view(&self) -> ClassifyEventView {
        match self {
            ClassifyEvent::Started => ClassifyEventView::Started,
            ClassifyEvent::Head(bytes) => ClassifyEventView::Head(bytes@),
            ClassifyEvent::ReadFailed(why) => ClassifyEventView::ReadFailed(why@),
            ClassifyEvent::ProbeFinished { success, stderr, duration } => {
                ClassifyEventView::ProbeFinished {
                    success: *success,
                    stderr: stderr@,
                    duration: *duration,
                }
            },
            ClassifyEvent::ProbeNotStarted(why) => ClassifyEventView::ProbeNotStarted(why@),
        }
    }
}

/// What a [`Classifier`] asks the caller to do next.
#[derive(Debug)]
pub enum ClassifyAction {
    /// Report the first `limit` bytes of the file, or all it has.
    ReadHead { path: String, limit: usize },
    /// Run the probe tool with these arguments and report the duration.
    ProbeDuration(Vec<String>),
    /// Nothing more: the episode's video and its subtitle files, or why
    /// there is no choice.
    Finished(Result<(String, Vec<String>), KisaraError>),
}

/// The mathematical value of a [`ClassifyAction`].
pub enum ClassifyActionView {
    ReadHead { path: Seq<char>, limit: usize },
    ProbeDuration(Seq<Seq<char>>),
    Finished(Result<(Seq<char>, Seq<Seq<char>>), KisaraErrorView>),
}

impl View for ClassifyAction {
    type V = ClassifyActionView;

    open spec fn view(&self) -> ClassifyActionView {
        match self {
            ClassifyAction::ReadHead { path, limit } => ClassifyActionView::ReadHead {
                path: path@,
                limit: *limit,
            },
            ClassifyAction::ProbeDuration(args) => ClassifyActionView::ProbeDuration(
                args.deep_view(),
            ),
            ClassifyAction::Finished(Ok(chosen)) => ClassifyActionView::Finished(
                Ok((chosen.0@, chosen.1.deep_view())),
            ),
            ClassifyAction::Finished(Err(e)) => ClassifyActionView::Finished(Err(e@)),
        }
    }
}

/// How far a [`Classifier`] has come: what it asked for last.
#[derive(Debug, Clone, Copy, PartialEq, Eq, Structural)]
pub enum ClassifyPhase {
    /// Nothing was asked yet.
    Created,
    /// The head of the file of this number was asked for.
    Reading(usize),
    /// The duration of the file of this number was asked for.
    Probing(usize),
    /// The work is over.
    Done,
}

/// The mathematical value of a [`Classifier`].
pub struct ClassifierView {
    /// The torrent whose files are classified.
    pub torrent_id: Seq<char>,
    /// The paths of the torrent's files, in the torrent's order.
    pub paths: Seq<Seq<char>>,
    /// What was asked for last.
    pub phase: ClassifyPhase,
    /// The videos found so far, in the order of the files.
    pub videos: Seq<VideoCandidateView>,
    /// The subtitle files found so far, in the order of the files.
    pub subtitles: Seq<Seq<char>>,
}

/// The paths of a torrent's files: each below the download folder.
pub open spec fn paths_of(folder: Seq<char>, files: Seq<TorrentFileEntry>) -> Seq<Seq<char>> {
    Seq::new(files.len(), |i: int| join_of(folder, files[i].relative_filename@))
}

/// The classifier at its beginning.
pub open spec fn initial_classifier(
    torrent_id: Seq<char>,
    paths: Seq<Seq<char>>,
) -> ClassifierView {
    ClassifierView {
        torrent_id,
        paths,
        phase: ClassifyPhase::Created,
        videos: Seq::empty(),
        subtitles: Seq::empty(),
    }
}

/// The classifier ends with an error.
pub open spec fn stop_with(c: ClassifierView, error: KisaraErrorView) -> (
    ClassifierView,
    ClassifyActionView,
) {
    (ClassifierView { phase: ClassifyPhase::Done, ..c }, ClassifyActionView::Finished(Err(error)))
}

/// The classifier's choice once every file is seen: the longest video and
/// all subtitle files, or an error where no file is a video.
pub open spec fn choice_of(c: ClassifierView) -> Result<
    (Seq<char>, Seq<Seq<char>>),
    KisaraErrorView,
> {
    let best = longest_of(c.videos);
    if best >= 0 {
        Ok((c.videos[best].path, c.subtitles))
    } else {
        Err(KisaraErrorView::NoVideoFoundInTorrent(c.torrent_id))
    }
}

/// What follows once the files up to number `i` are seen: the head of the
/// next file is asked for, or the choice is made.
pub open spec fn next_file(c: ClassifierView, i: int) -> (ClassifierView, ClassifyActionView) {
    if i < c.paths.len() {
        (
            ClassifierView { phase: ClassifyPhase::Reading(i as usize), ..c },
            ClassifyActionView::ReadHead { path: c.paths[i], limit: HEAD_BYTES },
        )
    } else {
        (
            ClassifierView { phase: ClassifyPhase::Done, ..c },
            ClassifyActionView::Finished(choice_of(c)),
        )
    }
}

/// The classifier's rule: the state and the action that follow from a state
/// and an event.
///
/// The files are taken in the torrent's order. A file whose head shows a
/// video is measured and becomes a candidate; any other file is a subtitle
/// file if its extension says so, and is passed over if not. A file that
/// cannot be read, a probe that fails or cannot be started, and a probe
/// that prints no number each end the work with an error, and so does an
/// event that does not answer the last action.
pub open spec fn classify_spec(c: ClassifierView, event: ClassifyEventView) -> (
    ClassifierView,
    ClassifyActionView,
) {
    let unexpected = stop_with(c, KisaraErrorView::Any("unexpected event"@));
    match c.phase {
        ClassifyPhase::Created => {
            if event is Started {
                next_file(c, 0)
            } else {
                unexpected
            }
        },
        ClassifyPhase::Reading(i) => {
            match event {
                ClassifyEventView::Head(bytes) => {
                    if sniffed_kind(bytes) == Some(MediaKind::Video) {
                        (
                            ClassifierView { phase: ClassifyPhase::Probing(i), ..c },
                            ClassifyActionView::ProbeDuration(
                                duration_arguments_of(c.paths[i as int]),
                            ),
                        )
                    } else if is_subtitle_path(c.paths[i as int]) {
                        next_file(
                            ClassifierView {
                                subtitles: c.subtitles.push(c.paths[i as int]),
                                ..c
                            },
                            i + 1,
                        )
                    } else {
                        next_file(c, i + 1)
                    }
                },
                ClassifyEventView::ReadFailed(why) => stop_with(
                    c,
                    KisaraErrorView::StdIOError(why),
                ),
                _ => unexpected,
            }
        },
        ClassifyPhase::Probing(i) => {
            match event {
                ClassifyEventView::ProbeFinished { success, stderr, duration } => {
                    if !success {
                        stop_with(c, KisaraErrorView::CommandFailed(stderr))
                    } else if duration is None {
                        stop_with(c, KisaraErrorView::CommandFailed("Failed to parse duration"@))
                    } else {
                        next_file(
                            ClassifierView {
                                videos: c.videos.push(
                                    VideoCandidateView {
                                        path: c.paths[i as int],
                                        duration: duration->0,
                                    },
                                ),
                                ..c
                            },
                            i + 1,
                        )
                    }
                },
                ClassifyEventView::ProbeNotStarted(why) => stop_with(
                    c,
                    KisaraErrorView::StdIOError(why),
                ),
                _ => unexpected,
            }
        },
        ClassifyPhase::Done => unexpected,
    }
}

/// Whether the file that the classifier is working on exists.
pub open spec fn file_in_bounds(c: ClassifierView) -> bool {
    match c.phase {
        ClassifyPhase::Reading(i) | ClassifyPhase::Probing(i) => i < c.paths.len(),
        _ => true,
    }
}

/// The classification of one torrent's files, step by step.
pub struct Classifier {
    torrent_id: String,
    paths: Vec<String>,
    phase: ClassifyPhase,
    videos: Vec<VideoCandidate>,
    subtitles: Vec<String>,
}

impl View for Classifier {
    type V = ClassifierView;

    closed spec fn view(&self) -> ClassifierView {
        ClassifierView {
            torrent_id: self.torrent_id@,
            paths: self.paths.deep_view(),
            phase: self.phase,
            videos: self.videos.deep_view(),
            subtitles: self.subtitles.deep_view(),
        }
    }
}

impl Classifier {
    #[verifier::type_invariant]
    spec fn in_bounds(self) -> bool {
        file_in_bounds(self@)
    }

    /// Begins the classification of the files of the torrent `torrent_id`,
    /// which lie below `download_folder`. Nothing is done yet: the
    /// classifier waits for `Started`.
    pub fn new(torrent_id: &str, download_folder: &str, files: &Vec<TorrentFileEntry>) -> (c: Self)
        ensures
            c@ == initial_classifier(torrent_id@, paths_of(download_folder@, files@)),
    {
        let mut paths: Vec<String> = Vec::new();
        let ghost all = paths_of(download_folder@, files@);
        let mut i: usize = 0;
        assert(all.take(0) =~= Seq::<Seq<char>>::empty());
        while i < files.len()
            invariant
                i <= files.len(),
                all == paths_of(download_folder@, files@),
                paths.deep_view() =~= all.take(i as int),
            decreases files.len() - i,
        {
            push_text(&mut paths, join(download_folder, files[i].relative_filename.as_str()));
            assert(all.take(i + 1) =~= all.take(i as int).push(all[i as int]));
            i += 1;
        }
        assert(all.take(i as int) =~= all);
        let videos: Vec<VideoCandidate> = Vec::new();
        let subtitles: Vec<String> = Vec::new();
        assert(videos.deep_view() =~= Seq::empty());
        assert(subtitles.deep_view() =~= Seq::empty());
        Classifier {
            torrent_id: String::from_str(torrent_id),
            paths,
            phase: ClassifyPhase::Created,
            videos,
            subtitles,
        }
    }

    /// Whether the work is over.
    pub fn is_done(&self) -> (b: bool)
        ensures
            b == (self@.phase == ClassifyPhase::Done),
    {
        self.phase == ClassifyPhase::Done
    }

    fn stop(
        torrent_id: String,
        paths: Vec<String>,
        videos: Vec<VideoCandidate>,
        subtitles: Vec<String>,
        error: KisaraError,
    ) -> (r: (Self, ClassifyAction))
        ensures
            r.0@ == (ClassifierView {
                torrent_id: torrent_id@,
                paths: paths.deep_view(),
                phase: ClassifyPhase::Done,
                videos: videos.deep_view(),
                subtitles: subtitles.deep_view(),
            }),
            r.1@ == ClassifyActionView::Finished(Err(error@)),
    {
        let c = Classifier { torrent_id, paths, phase: ClassifyPhase::Done, videos, subtitles };
        (c, ClassifyAction::Finished(Err(error)))
    }

    fn unexpected(
        torrent_id: String,
        paths: Vec<String>,
        videos: Vec<VideoCandidate>,
        subtitles: Vec<String>,
    ) -> (r: (Self, ClassifyAction))
        ensures
            r.0@ == (ClassifierView {
                torrent_id: torrent_id@,
                paths: paths.deep_view(),
                phase: ClassifyPhase::Done,
                videos: videos.deep_view(),
                subtitles: subtitles.deep_view(),
            }),
            r.1@ == ClassifyActionView::Finished(Err(KisaraErrorView::Any("unexpected event"@))),
    {
        Self::stop(
            torrent_id,
            paths,
            videos,
            subtitles,
            KisaraError::Any(String::from_str("unexpected event")),
        )
    }

    fn next_file(
        torrent_id: String,
        paths: Vec<String>,
        videos: Vec<VideoCandidate>,
        subtitles: Vec<String>,
        i: usize,
    ) -> (r: (Self, ClassifyAction))
        requires
            i <= paths.len(),
        ensures
            (r.0@, r.1@) == next_file(
                ClassifierView {
                    torrent_id: torrent_id@,
                    paths: paths.deep_view(),
                    phase: ClassifyPhase::Created,
                    videos: videos.deep_view(),
                    subtitles: subtitles.deep_view(),
                },
                i as int,
            ),
    {
        if i < paths.len() {
            let path = paths[i].clone();
            assert(paths.deep_view()[i as int] == path@);
            let c = Classifier {
                torrent_id,
                paths,
                phase: ClassifyPhase::Reading(i),
                videos,
                subtitles,
            };
            (c, ClassifyAction::ReadHead { path, limit: HEAD_BYTES })
        } else {
            let chosen = match select_longest(&videos) {
                Some(best) => {
                    assert(videos.deep_view()[best as int] == videos[best as int].deep_view());
                    let found = subtitles.clone();
                    assert(found.deep_view() == subtitles.deep_view());
                    Ok((videos[best].path.clone(), found))
                },
                None => Err(KisaraError::NoVideoFoundInTorrent(torrent_id.clone())),
            };
            let c = Classifier {
                torrent_id,
                paths,
                phase: ClassifyPhase::Done,
                videos,
                subtitles,
            };
            (c, ClassifyAction::Finished(chosen))
        }
    }

    /// Takes what the caller reports and names the next action, as
    /// [`classify_spec`] rules.
    pub fn advance(self, event: ClassifyEvent) -> (r: (Classifier, ClassifyAction))
        ensures
            (r.0@, r.1@) == classify_spec(self@, event@),
    {
        proof {
            use_type_invariant(&self);
        }
        let Classifier { torrent_id, paths, phase, videos, subtitles } = self;
        let mut videos = videos;
        let mut subtitles = subtitles;
        match phase {
            ClassifyPhase::Created => match event {
                ClassifyEvent::Started => Self::next_file(torrent_id, paths, videos, subtitles, 0),
                _ => Self::unexpected(torrent_id, paths, videos, subtitles),
            },
            ClassifyPhase::Reading(i) => {
                assert(i < paths.len());
                assert(paths.deep_view()[i as int] == paths[i as int]@);
                match event {
                    ClassifyEvent::Head(bytes) => {
                        let kind = sniff(bytes.as_slice());
                        let video = match kind {
                            Some(MediaKind::Video) => true,
                            _ => false,
                        };
                        if video {
                            let args = duration_arguments(paths[i].as_str());
                            let c = Classifier {
                                torrent_id,
                                paths,
                                phase: ClassifyPhase::Probing(i),
                                videos,
                                subtitles,
                            };
                            (c, ClassifyAction::ProbeDuration(args))
                        } else if has_subtitle_extension(paths[i].as_str()) {
                            push_text(&mut subtitles, paths[i].clone());
                            Self::next_file(torrent_id, paths, videos, subtitles, i + 1)
                        } else {
                            Self::next_file(torrent_id, paths, videos, subtitles, i + 1)
                        }
                    },
                    ClassifyEvent::ReadFailed(why) => Self::stop(
                        torrent_id,
                        paths,
                        videos,
                        subtitles,
                        KisaraError::StdIOError(why),
                    ),
                    _ => Self::unexpected(torrent_id, paths, videos, subtitles),
                }
            },
            ClassifyPhase::Probing(i) => {
                assert(i < paths.len());
                assert(paths.deep_view()[i as int] == paths[i as int]@);
                match event {
                    ClassifyEvent::ProbeFinished { success, stderr, duration } => {
                        if !success {
                            Self::stop(
                                torrent_id,
                                paths,
                                videos,
                                subtitles,
                                KisaraError::CommandFailed(stderr),
                            )
                        } else {
                            match duration {
                                None => Self::stop(
                                    torrent_id,
                                    paths,
                                    videos,
                                    subtitles,
                                    KisaraError::CommandFailed(
                                        String::from_str("Failed to parse duration"),
                                    ),
                                ),
                                Some(d) => {
                                    let one = VideoCandidate {
                                        path: paths[i].clone(),
                                        duration: d,
                                    };
                                    let ghost before = videos.deep_view();
                                    videos.push(one);
                                    assert(videos.deep_view() =~= before.push(one.deep_view()));
                                    Self::next_file(torrent_id, paths, videos, subtitles, i + 1)
                                },
                            }
                        }
                    },
                    ClassifyEvent::ProbeNotStarted(why) => Self::stop(
                        torrent_id,
                        paths,
                        videos,
                        subtitles,
                        KisaraError::StdIOError(why),
                    ),
                    _ => Self::unexpected(torrent_id, paths, videos, subtitles),
                }
            },
            ClassifyPhase::Done => Self::unexpected(torrent_id, paths, videos, subtitles),
        }
    }
}

/// Whether all that the classifier has found is among the torrent's files:
/// each candidate and each subtitle file is one of the files seen so far, and
/// each subtitle file has a subtitle extension.
pub open spec fn well_formed(c: ClassifierView) -> bool {
    &&& c.paths.len() <= usize::MAX
    &&& file_in_bounds(c)
    &&& forall|k: int| 0 <= k < c.videos.len() ==> c.paths.contains((#[trigger] c.videos[k]).path)
    &&& forall|k: int|
        0 <= k < c.subtitles.len() ==> c.paths.contains(#[trigger] c.subtitles[k])
            && is_subtitle_path(c.subtitles[k])
}

/// All that the classifier has found stays among the torrent's files,
/// whatever the caller reports.
pub proof fn law_classify_keeps_form(c: ClassifierView, event: ClassifyEventView)
    requires
        well_formed(c),
    ensures
        well_formed(classify_spec(c, event).0),
{
    let next = classify_spec(c, event).0;
    match c.phase {
        ClassifyPhase::Reading(i) | ClassifyPhase::Probing(i) => {
            assert(c.paths.contains(c.paths[i as int]));
            assert forall|k: int| 0 <= k < next.videos.len() implies c.paths.contains(
                (#[trigger] next.videos[k]).path,
            ) by {
                if k < c.videos.len() {
                    assert(next.videos[k] == c.videos[k]);
                }
            }
            assert forall|k: int| 0 <= k < next.subtitles.len() implies c.paths.contains(
                #[trigger] next.subtitles[k],
            ) && is_subtitle_path(next.subtitles[k]) by {
                if k < c.subtitles.len() {
                    assert(next.subtitles[k] == c.subtitles[k]);
                }
            }
        },
        _ => {},
    }
}

/// What the classifier chooses is the torrent's own: the video is one of the
/// torrent's files, it plays at least as long as every video found, and each
/// subtitle file is one of the torrent's files with a subtitle extension.
/// There is a choice exactly when a video was found.
pub proof fn law_choice_is_a_file_of_the_torrent(c: ClassifierView, event: ClassifyEventView)
    requires
        well_formed(c),
        classify_spec(c, event).1 matches ClassifyActionView::Finished(Ok(_)),
    ensures
        ({
            let (end, action) = classify_spec(c, event);
            let chosen = action->Finished_0->Ok_0;
            &&& c.paths.contains(chosen.0)
            &&& exists|k: int|
                0 <= k < end.videos.len() && (#[trigger] end.videos[k]).path == chosen.0 && forall|
                    j: int,
                |
                    0 <= j < end.videos.len() ==> (#[trigger] end.videos[j]).duration
                        <= end.videos[k].duration
            &&& forall|k: int|
                0 <= k < chosen.1.len() ==> c.paths.contains(#[trigger] chosen.1[k])
                    && is_subtitle_path(chosen.1[k])
        }),
{
    let (end, action) = classify_spec(c, event);
    law_classify_keeps_form(c, event);
    law_longest_is_longest(end.videos);
    let best = longest_of(end.videos);
    assert(end.paths == c.paths);
    assert(0 <= best < end.videos.len());
    assert(end.videos[best].path == action->Finished_0->Ok_0.0);
}

/// Without a video there is no choice: when every file is seen and none was
/// a video, the work ends with the error that names the torrent.
pub proof fn law_no_video_is_an_error(c: ClassifierView)
    requires
        c.videos.len() == 0,
    ensures
        choice_of(c) == Err::<(Seq<char>, Seq<Seq<char>>), KisaraErrorView>(
            KisaraErrorView::NoVideoFoundInTorrent(c.torrent_id),
        ),
{
}

/// Whether an event says that a file could not be read or that a video
/// could not be measured.
pub open spec fn is_failure(event: ClassifyEventView) -> bool {
    match event {
        ClassifyEventView::ReadFailed(_) => true,
        ClassifyEventView::ProbeNotStarted(_) => true,
        ClassifyEventView::ProbeFinished { success, duration, .. } => !success || duration is None,
        _ => false,
    }
}

/// A file that cannot be read and a probe that fails end the work with an
/// error, whatever was found before.
pub proof fn law_one_failure_ends_classification(c: ClassifierView, event: ClassifyEventView)
    requires
        is_failure(event),
    ensures
        classify_spec(c, event).1 matches ClassifyActionView::Finished(Err(_)),
        classify_spec(c, event).0.phase == ClassifyPhase::Done,
{
}

/// Whether an action ends the work with a choice.
pub open spec fn is_choice(action: ClassifyActionView) -> bool {
    action matches ClassifyActionView::Finished(Ok(_))
}

/// The actions that a classifier names in answer to the given events, one
/// for each.
pub open spec fn actions_of(c: ClassifierView, events: Seq<ClassifyEventView>) -> Seq<
    ClassifyActionView,
>
    decreases events.len(),
{
    if events.len() == 0 {
        Seq::empty()
    } else {
        let (next, action) = classify_spec(c, events[0]);
        seq![action] + actions_of(next, events.drop_first())
    }
}

proof fn lemma_every_choice_is_a_file(c: ClassifierView, events: Seq<ClassifyEventView>, k: int)
    requires
        well_formed(c),
        0 <= k < events.len(),
        actions_of(c, events).len() > k,
        actions_of(c, events)[k] matches ClassifyActionView::Finished(Ok(_)),
    ensures
        c.paths.contains(actions_of(c, events)[k]->Finished_0->Ok_0.0),
    decreases events.len(),
{
    let (next, action) = classify_spec(c, events[0]);
    let rest = actions_of(next, events.drop_first());
    if k == 0 {
        law_choice_is_a_file_of_the_torrent(c, events[0]);
    } else {
        law_classify_keeps_form(c, events[0]);
        assert(actions_of(c, events)[k] == rest[k - 1]);
        assert(next.paths == c.paths);
        lemma_every_choice_is_a_file(next, events.drop_first(), k - 1);
    }
}

/// However the classification of a torrent's files goes, a video that it
/// ends with is one of the torrent's files.
pub proof fn law_resolved_video_is_a_torrent_file(
    torrent_id: Seq<char>,
    paths: Seq<Seq<char>>,
    events: Seq<ClassifyEventView>,
    k: int,
)
    requires
        paths.len() <= usize::MAX,
        0 <= k < actions_of(initial_classifier(torrent_id, paths), events).len(),
        is_choice(actions_of(initial_classifier(torrent_id, paths), events)[k]),
    ensures
        paths.contains(
            actions_of(initial_classifier(torrent_id, paths), events)[k]->Finished_0->Ok_0.0,
        ),
{
    lemma_actions_len(initial_classifier(torrent_id, paths), events);
    lemma_every_choice_is_a_file(initial_classifier(torrent_id, paths), events, k);
}

proof fn lemma_actions_len(c: ClassifierView, events: Seq<ClassifyEventView>)
    ensures
        actions_of(c, events).len() == events.len(),
    decreases events.len(),
{
    if events.len() > 0 {
        lemma_actions_len(classify_spec(c, events[0]).0, events.drop_first());
    }
}

} // verus!
