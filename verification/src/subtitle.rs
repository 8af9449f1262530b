//! Subtitle normalisation. Every subtitle track of a video, embedded or in a
//! file beside it, is converted once into WebVTT and kept in a cache
//! directory of the video. A marker file in that directory says that the
//! conversion is complete.
//!
//! The library decides and the caller acts: a [`SubtitleJob`] names the next
//! action (ask for a directory, look for a file, run a tool), the caller
//! performs it and reports what happened, and the job names the next one.

use vstd::prelude::*;
use crate::error::{KisaraError, KisaraErrorView};
use crate::paths::{
    directory_prefix_of, extension, extension_of, file_name, file_name_of, is_plain_name, join,
    join_of, law_appended_extension_is_the_extension, law_file_name_holds_no_separator,
    law_joined_path_ends_with_the_child, law_replaced_extension_is_the_extension,
    lemma_name_start_of_parts, lemma_plain_name_starts_at_its_beginning, lies_under, name_start,
    with_extension, with_extension_of,
};
use crate::text::{
    concat, lemma_split_on_nonempty, slice_string, split, split_on, str_equal, texts_of,
};

verus! {

/// One subtitle track inside a video file, as the probe tool reports it.
#[derive(Debug)]
pub struct SubtitleStream {
    /// The number of the stream in the file.
    pub index: String,
    /// The language tag of the stream.
    pub language: String,
    /// The title tag of the stream.
    pub title: String,
}

/// The mathematical value of a [`SubtitleStream`].
pub struct SubtitleStreamView {
    pub index: Seq<char>,
    pub language: Seq<char>,
    pub title: Seq<char>,
}

impl DeepView for SubtitleStream {
    type V = SubtitleStreamView;

    open spec fn deep_view(&self) -> SubtitleStreamView {
        SubtitleStreamView { index: self.index@, language: self.language@, title: self.title@ }
    }
}

/// A line without the carriage return at its end, if it has one.
pub open spec fn strip_cr(line: Seq<char>) -> Seq<char> {
    if line.len() > 0 && line.last() == '\r' {
        line.drop_last()
    } else {
        line
    }
}

/// Each of `lines` without the carriage return at its end.
pub open spec fn strip_cr_all(lines: Seq<Seq<char>>) -> Seq<Seq<char>> {
    Seq::new(lines.len(), |i: int| strip_cr(lines[i]))
}

/// The lines of a text. A line ends with a line feed, or with a carriage
/// return and a line feed; what follows the last line feed is a line too,
/// unless it is empty.
pub open spec fn lines_of(s: Seq<char>) -> Seq<Seq<char>> {
    let pieces = split_on(s, '\n');
    let ended = strip_cr_all(pieces.drop_last());
    if pieces.last().len() == 0 {
        ended
    } else {
        ended.push(pieces.last())
    }
}

/// The stream that one line of the probe's output describes: its first three
/// comma-separated fields are index, language and title. A line with fewer
/// fields describes none.
pub open spec fn row_of(line: Seq<char>) -> Option<SubtitleStreamView> {
    let fields = split_on(line, ',');
    if fields.len() < 3 {
        None
    } else {
        Some(SubtitleStreamView { index: fields[0], language: fields[1], title: fields[2] })
    }
}

/// The streams that the given lines describe, in their order.
pub open spec fn rows_of(lines: Seq<Seq<char>>) -> Seq<SubtitleStreamView>
    decreases lines.len(),
{
    if lines.len() == 0 {
        Seq::empty()
    } else {
        let before = rows_of(lines.drop_last());
        match row_of(lines.last()) {
            Some(row) => before.push(row),
            None => before,
        }
    }
}

/// The subtitle streams that the probe's output describes.
pub open spec fn streams_of(output: Seq<char>) -> Seq<SubtitleStreamView> {
    rows_of(lines_of(output))
}

fn without_cr(line: &str) -> (r: String)
    ensures
        r@ == strip_cr(line@),
{
    let n = line.unicode_len();
    if n > 0 && line.get_char(n - 1) == '\r' {
        let r = slice_string(line, 0, n - 1);
        assert(r@ =~= line@.drop_last());
        r
    } else {
        let r = slice_string(line, 0, n);
        assert(r@ =~= line@);
        r
    }
}

/// The lines of a text.
pub fn lines(s: &str) -> (r: Vec<String>)
    ensures
        r.deep_view() == lines_of(s@),
{
    let pieces = split(s, '\n');
    proof {
        lemma_split_on_nonempty(s@, '\n');
    }
    let ghost all = split_on(s@, '\n');
    let mut out: Vec<String> = Vec::new();
    let last = pieces.len() - 1;
    let mut i: usize = 0;
    while i < last
        invariant
            pieces.deep_view() == all,
            last == pieces.len() - 1,
            i <= last,
            out.deep_view() =~= strip_cr_all(all.take(i as int)),
        decreases last - i,
    {
        assert(pieces.deep_view()[i as int] == pieces[i as int]@);
        let line = without_cr(pieces[i].as_str());
        let ghost before = out.deep_view();
        out.push(line);
        assert(out.deep_view() =~= before.push(line@));
        assert(strip_cr_all(all.take(i + 1)) =~= strip_cr_all(all.take(i as int)).push(
            strip_cr(all[i as int]),
        ));
        i += 1;
    }
    assert(all.take(last as int) =~= all.drop_last());
    assert(pieces.deep_view()[last as int] == pieces[last as int]@);
    if pieces[last].as_str().unicode_len() > 0 {
        let tail = pieces[last].clone();
        out.push(tail);
        assert(out.deep_view() =~= strip_cr_all(all.drop_last()).push(all.last()));
    }
    out
}

/// Reads the subtitle streams out of what the probe tool printed.
pub fn parse_streams(output: &str) -> (streams: Vec<SubtitleStream>)
    ensures
        streams.deep_view() == streams_of(output@),
{
    let all = lines(output);
    let mut streams: Vec<SubtitleStream> = Vec::new();
    let mut i: usize = 0;
    assert(all.deep_view().take(0) =~= Seq::<Seq<char>>::empty());
    while i < all.len()
        invariant
            i <= all.len(),
            streams.deep_view() =~= rows_of(all.deep_view().take(i as int)),
        decreases all.len() - i,
    {
        let ghost upto = all.deep_view().take(i + 1);
        assert(upto.drop_last() =~= all.deep_view().take(i as int));
        assert(upto.last() == all[i as int]@);
        let fields = split(all[i].as_str(), ',');
        if fields.len() >= 3 {
            assert(fields.deep_view()[0] == fields[0]@);
            assert(fields.deep_view()[1] == fields[1]@);
            assert(fields.deep_view()[2] == fields[2]@);
            let stream = SubtitleStream {
                index: fields[0].clone(),
                language: fields[1].clone(),
                title: fields[2].clone(),
            };
            streams.push(stream);
        }
        i += 1;
    }
    assert(all.deep_view().take(i as int) =~= all.deep_view());
    streams
}

/// The arguments with which the probe tool lists a video's subtitle streams,
/// one line of `index,language,title` for each.
pub open spec fn probe_arguments_of(video: Seq<char>) -> Seq<Seq<char>> {
    seq![
        "-v"@,
        "error"@,
        "-select_streams"@,
        "s"@,
        "-show_entries"@,
        "stream=index:stream_tags=language,title"@,
        "-of"@,
        "csv=p=0"@,
        video,
    ]
}

/// The arguments with which the convert tool writes one embedded stream of
/// `video` to `target` as WebVTT, tagged with the stream's language and title.
pub open spec fn extract_arguments_of(
    video: Seq<char>,
    stream: SubtitleStreamView,
    target: Seq<char>,
) -> Seq<Seq<char>> {
    seq![
        "-i"@,
        video,
        "-map"@,
        "0:"@ + stream.index,
        "-c:s"@,
        "webvtt"@,
        "-metadata"@,
        "language="@ + stream.language,
        "-metadata"@,
        "title="@ + stream.title,
        target,
    ]
}

/// The arguments with which the convert tool writes the subtitle file
/// `source` to `target` as WebVTT.
pub open spec fn convert_arguments_of(source: Seq<char>, target: Seq<char>) -> Seq<Seq<char>> {
    seq!["-i"@, source, "-c:s"@, "webvtt"@, target]
}

fn text(s: &str) -> (r: String)
    ensures
        r@ == s@,
{
    String::from_str(s)
}

/// The arguments of the probe run for `video`.
pub fn probe_arguments(video: &str) -> (args: Vec<String>)
    ensures
        args.deep_view() == probe_arguments_of(video@),
{
    let mut args: Vec<String> = Vec::new();
    args.push(text("-v"));
    args.push(text("error"));
    args.push(text("-select_streams"));
    args.push(text("s"));
    args.push(text("-show_entries"));
    args.push(text("stream=index:stream_tags=language,title"));
    args.push(text("-of"));
    args.push(text("csv=p=0"));
    args.push(text(video));
    assert(args.deep_view() =~= probe_arguments_of(video@));
    args
}

/// The arguments of the run that extracts one embedded stream.
pub fn extract_arguments(video: &str, stream: &SubtitleStream, target: &str) -> (args: Vec<String>)
    ensures
        args.deep_view() == extract_arguments_of(video@, stream.deep_view(), target@),
{
    let mut args: Vec<String> = Vec::new();
    args.push(text("-i"));
    args.push(text(video));
    args.push(text("-map"));
    args.push(concat("0:", stream.index.as_str()));
    args.push(text("-c:s"));
    args.push(text("webvtt"));
    args.push(text("-metadata"));
    args.push(concat("language=", stream.language.as_str()));
    args.push(text("-metadata"));
    args.push(concat("title=", stream.title.as_str()));
    args.push(text(target));
    assert(args.deep_view() =~= extract_arguments_of(video@, stream.deep_view(), target@));
    args
}

/// The arguments of the run that converts one subtitle file.
pub fn convert_arguments(source: &str, target: &str) -> (args: Vec<String>)
    ensures
        args.deep_view() == convert_arguments_of(source@, target@),
{
    let mut args: Vec<String> = Vec::new();
    args.push(text("-i"));
    args.push(text(source));
    args.push(text("-c:s"));
    args.push(text("webvtt"));
    args.push(text(target));
    assert(args.deep_view() =~= convert_arguments_of(source@, target@));
    args
}

/// The directory under the download root that holds every video's cache.
pub open spec fn subtitles_dir_of(root: Seq<char>) -> Seq<char> {
    join_of(root, "subtitles"@)
}

/// The cache directory of a video: named after the video's file name.
pub open spec fn cache_dir_of(root: Seq<char>, video: Seq<char>) -> Seq<char> {
    join_of(subtitles_dir_of(root), file_name_of(video))
}

/// The marker file of a video's cache directory.
pub open spec fn marker_of(root: Seq<char>, video: Seq<char>) -> Seq<char> {
    join_of(cache_dir_of(root, video), ".kisara"@)
}

/// Where the converted form of an embedded stream is kept: in the cache
/// directory, under the stream's title.
pub open spec fn embedded_target_of(
    root: Seq<char>,
    video: Seq<char>,
    stream: SubtitleStreamView,
) -> Seq<char> {
    join_of(cache_dir_of(root, video), stream.title + ".vtt"@)
}

/// Where the converted form of a subtitle file is kept: in the cache
/// directory, under the file's name with the extension `vtt`.
pub open spec fn external_target_of(root: Seq<char>, video: Seq<char>, source: Seq<char>) -> Seq<
    char,
> {
    with_extension_of(join_of(cache_dir_of(root, video), file_name_of(source)), "vtt"@)
}

/// The targets of the given embedded streams, in their order.
pub open spec fn embedded_targets_of(
    root: Seq<char>,
    video: Seq<char>,
    streams: Seq<SubtitleStreamView>,
) -> Seq<Seq<char>> {
    Seq::new(streams.len(), |i: int| embedded_target_of(root, video, streams[i]))
}

/// The targets of the given subtitle files, in their order.
pub open spec fn external_targets_of(
    root: Seq<char>,
    video: Seq<char>,
    sources: Seq<Seq<char>>,
) -> Seq<Seq<char>> {
    Seq::new(sources.len(), |i: int| external_target_of(root, video, sources[i]))
}

/// Whether a path has the extension `vtt`.
pub open spec fn is_vtt(path: Seq<char>) -> bool {
    extension_of(path) == Some("vtt"@)
}

/// The entries of a cache directory that are normalised subtitles, in the
/// order in which they were listed.
pub open spec fn cached_subtitles_of(entries: Seq<Seq<char>>) -> Seq<Seq<char>>
    decreases entries.len(),
{
    if entries.len() == 0 {
        Seq::empty()
    } else {
        let before = cached_subtitles_of(entries.drop_last());
        if is_vtt(entries.last()) {
            before.push(entries.last())
        } else {
            before
        }
    }
}

/// Picks the normalised subtitles out of a cache directory's entries.
pub fn cached_subtitles(entries: &Vec<String>) -> (found: Vec<String>)
    ensures
        found.deep_view() == cached_subtitles_of(entries.deep_view()),
{
    let mut found: Vec<String> = Vec::new();
    let mut i: usize = 0;
    assert(entries.deep_view().take(0) =~= Seq::<Seq<char>>::empty());
    while i < entries.len()
        invariant
            i <= entries.len(),
            found.deep_view() =~= cached_subtitles_of(entries.deep_view().take(i as int)),
        decreases entries.len() - i,
    {
        let ghost upto = entries.deep_view().take(i + 1);
        assert(upto.drop_last() =~= entries.deep_view().take(i as int));
        assert(upto.last() == entries[i as int]@);
        let vtt = match extension(entries[i].as_str()) {
            Some(ext) => str_equal(ext.as_str(), "vtt"),
            None => false,
        };
        if vtt {
            found.push(entries[i].clone());
        }
        i += 1;
    }
    assert(entries.deep_view().take(i as int) =~= entries.deep_view());
    found
}

/// What the caller reports to a [`SubtitleJob`].
#[derive(Debug)]
pub enum NormalizeEvent {
    /// The work begins.
    Started,
    /// The directory asked for is there.
    DirectoryReady,
    /// Whether the path asked about exists.
    Exists(bool),
    /// The paths of the entries of the directory asked about.
    Listing(Vec<String>),
    /// The tool ran: whether it ended well, and what it printed.
    ToolFinished { success: bool, stdout: String, stderr: String },
    /// The tool could not be started, and why.
    ToolNotStarted(String),
    /// The marker file is written.
    MarkerWritten,
    /// A file operation failed, and why.
    IoFailed(String),
}

/// The mathematical value of a [`NormalizeEvent`].
pub enum NormalizeEventView {
    Started,
    DirectoryReady,
    Exists(bool),
    Listing(Seq<Seq<char>>),
    ToolFinished { success: bool, stdout: Seq<char>, stderr: Seq<char> },
    ToolNotStarted(Seq<char>),
    MarkerWritten,
    IoFailed(Seq<char>),
}

impl View for NormalizeEvent {
    type V = NormalizeEventView;

    open spec fn view(&self) -> NormalizeEventView {
        match self {
            NormalizeEvent::Started => NormalizeEventView::Started,
            NormalizeEvent::DirectoryReady => NormalizeEventView::DirectoryReady,
            NormalizeEvent::Exists(b) => NormalizeEventView::Exists(*b),
            NormalizeEvent::Listing(l) => NormalizeEventView::Listing(l.deep_view()),
            NormalizeEvent::ToolFinished { success, stdout, stderr } => {
                NormalizeEventView::ToolFinished {
                    success: *success,
                    stdout: stdout@,
                    stderr: stderr@,
                }
            },
            NormalizeEvent::ToolNotStarted(m) => NormalizeEventView::ToolNotStarted(m@),
            NormalizeEvent::MarkerWritten => NormalizeEventView::MarkerWritten,
            NormalizeEvent::IoFailed(m) => NormalizeEventView::IoFailed(m@),
        }
    }
}

/// What a [`SubtitleJob`] asks the caller to do next.
#[derive(Debug)]
pub enum NormalizeAction {
    /// Create the directory, and those above it, unless it is there.
    EnsureDirectory(String),
    /// Report whether the path exists.
    CheckExists(String),
    /// Report the paths of the directory's entries.
    ListDirectory(String),
    /// Run the probe tool with these arguments.
    RunProbe(Vec<String>),
    /// Run the convert tool with these arguments.
    RunConvert(Vec<String>),
    /// Write the empty marker file.
    WriteMarker(String),
    /// Nothing more: the normalised subtitles, or why there are none.
    Finished(Result<Vec<String>, KisaraError>),
}

/// The mathematical value of a [`NormalizeAction`].
pub enum NormalizeActionView {
    EnsureDirectory(Seq<char>),
    CheckExists(Seq<char>),
    ListDirectory(Seq<char>),
    RunProbe(Seq<Seq<char>>),
    RunConvert(Seq<Seq<char>>),
    WriteMarker(Seq<char>),
    Finished(Result<Seq<Seq<char>>, KisaraErrorView>),
}

impl View for NormalizeAction {
    type V = NormalizeActionView;

    open spec fn view(&self) -> NormalizeActionView {
        match self {
            NormalizeAction::EnsureDirectory(p) => NormalizeActionView::EnsureDirectory(p@),
            NormalizeAction::CheckExists(p) => NormalizeActionView::CheckExists(p@),
            NormalizeAction::ListDirectory(p) => NormalizeActionView::ListDirectory(p@),
            NormalizeAction::RunProbe(a) => NormalizeActionView::RunProbe(a.deep_view()),
            NormalizeAction::RunConvert(a) => NormalizeActionView::RunConvert(a.deep_view()),
            NormalizeAction::WriteMarker(p) => NormalizeActionView::WriteMarker(p@),
            NormalizeAction::Finished(Ok(list)) => NormalizeActionView::Finished(
                Ok(list.deep_view()),
            ),
            NormalizeAction::Finished(Err(e)) => NormalizeActionView::Finished(Err(e@)),
        }
    }
}

/// How far a [`SubtitleJob`] has come: what it asked for last.
#[derive(Debug, Clone, Copy, PartialEq, Eq, Structural)]
pub enum Phase {
    /// Nothing was asked yet.
    Created,
    /// The directory of all caches was asked for.
    EnsuringRoot,
    /// The video's cache directory was asked for.
    EnsuringCache,
    /// The marker file was looked for.
    CheckingMarker,
    /// The cache directory's entries were asked for.
    ReadingCache,
    /// The probe tool was run.
    Probing,
    /// The target of the embedded stream of this number was looked for.
    EmbeddedTarget(usize),
    /// The convert tool was run on the embedded stream of this number.
    EmbeddedConvert(usize),
    /// The subtitle file of this number was looked for.
    ExternalSource(usize),
    /// The target of the subtitle file of this number was looked for.
    ExternalTarget(usize),
    /// The convert tool was run on the subtitle file of this number.
    ExternalConvert(usize),
    /// The marker file was ordered.
    WritingMarker,
    /// The work is over.
    Done,
}

/// The mathematical value of a [`SubtitleJob`].
pub struct SubtitleJobView {
    /// The download root.
    pub root: Seq<char>,
    /// The path of the video.
    pub video: Seq<char>,
    /// The subtitle files beside the video.
    pub externals: Seq<Seq<char>>,
    /// What was asked for last.
    pub phase: Phase,
    /// The embedded streams, once the probe has run.
    pub streams: Seq<SubtitleStreamView>,
    /// The normalised subtitles that are known to be in the cache.
    pub produced: Seq<Seq<char>>,
}

/// The job at its beginning.
pub open spec fn initial_job(
    root: Seq<char>,
    video: Seq<char>,
    externals: Seq<Seq<char>>,
) -> SubtitleJobView {
    SubtitleJobView {
        root,
        video,
        externals,
        phase: Phase::Created,
        streams: Seq::empty(),
        produced: Seq::empty(),
    }
}

/// The job ends with an error.
pub open spec fn fail_with(job: SubtitleJobView, error: KisaraErrorView) -> (
    SubtitleJobView,
    NormalizeActionView,
) {
    (SubtitleJobView { phase: Phase::Done, ..job }, NormalizeActionView::Finished(Err(error)))
}

/// What follows once the subtitle files up to number `j` are done: the next
/// file is looked for, or the marker is ordered.
pub open spec fn next_external(job: SubtitleJobView, j: int) -> (
    SubtitleJobView,
    NormalizeActionView,
) {
    if j < job.externals.len() {
        (
            SubtitleJobView { phase: Phase::ExternalSource(j as usize), ..job },
            NormalizeActionView::CheckExists(job.externals[j]),
        )
    } else {
        (
            SubtitleJobView { phase: Phase::WritingMarker, ..job },
            NormalizeActionView::WriteMarker(marker_of(job.root, job.video)),
        )
    }
}

/// What follows once the embedded streams up to number `k` are done: the
/// target of the next stream is looked for, or the subtitle files begin.
pub open spec fn next_embedded(job: SubtitleJobView, k: int) -> (
    SubtitleJobView,
    NormalizeActionView,
) {
    if k < job.streams.len() {
        (
            SubtitleJobView { phase: Phase::EmbeddedTarget(k as usize), ..job },
            NormalizeActionView::CheckExists(
                embedded_target_of(job.root, job.video, job.streams[k]),
            ),
        )
    } else {
        next_external(job, 0)
    }
}

/// The job with one more normalised subtitle known.
pub open spec fn with_produced(job: SubtitleJobView, path: Seq<char>) -> SubtitleJobView {
    SubtitleJobView { produced: job.produced.push(path), ..job }
}

/// What the job does on the end of a convert run: it goes on with `then`
/// where the run ended well, and else fails with what the tool printed.
pub open spec fn after_convert(
    job: SubtitleJobView,
    event: NormalizeEventView,
    then: (SubtitleJobView, NormalizeActionView),
) -> (SubtitleJobView, NormalizeActionView) {
    match event {
        NormalizeEventView::ToolFinished { success, stdout, stderr } => {
            if success {
                then
            } else {
                fail_with(job, KisaraErrorView::Any("ffmpeg failed: "@ + stderr))
            }
        },
        NormalizeEventView::ToolNotStarted(why) => fail_with(
            job,
            KisaraErrorView::Any("Failed to run ffmpeg: "@ + why),
        ),
        _ => fail_with(job, KisaraErrorView::Any("unexpected event"@)),
    }
}

/// The job's rule: the state and the action that follow from a state and an
/// event.
///
/// The directories are asked for first. A video path without a file name
/// ends the job. Where the marker file exists, the cache directory is listed
/// and its `vtt` entries are the result: no tool runs. Where it does not, the
/// probe runs, then each embedded stream and each subtitle file is converted
/// unless its target exists already, and the marker is written last. A
/// subtitle file that does not exist, a tool that fails and a file operation
/// that fails each end the job with an error, and so does an event that does
/// not answer the last action.
pub open spec fn advance_spec(job: SubtitleJobView, event: NormalizeEventView) -> (
    SubtitleJobView,
    NormalizeActionView,
) {
    let unexpected = fail_with(job, KisaraErrorView::Any("unexpected event"@));
    if job.phase == Phase::Done {
        unexpected
    } else if event is IoFailed {
        fail_with(job, KisaraErrorView::StdIOError(event->IoFailed_0))
    } else {
        match job.phase {
            Phase::Created => {
                if event is Started {
                    (
                        SubtitleJobView { phase: Phase::EnsuringRoot, ..job },
                        NormalizeActionView::EnsureDirectory(subtitles_dir_of(job.root)),
                    )
                } else {
                    unexpected
                }
            },
            Phase::EnsuringRoot => {
                if event is DirectoryReady {
                    if file_name_of(job.video).len() == 0 {
                        fail_with(job, KisaraErrorView::Any("Invalid video name"@))
                    } else {
                        (
                            SubtitleJobView { phase: Phase::EnsuringCache, ..job },
                            NormalizeActionView::EnsureDirectory(
                                cache_dir_of(job.root, job.video),
                            ),
                        )
                    }
                } else {
                    unexpected
                }
            },
            Phase::EnsuringCache => {
                if event is DirectoryReady {
                    (
                        SubtitleJobView { phase: Phase::CheckingMarker, ..job },
                        NormalizeActionView::CheckExists(marker_of(job.root, job.video)),
                    )
                } else {
                    unexpected
                }
            },
            Phase::CheckingMarker => {
                match event {
                    NormalizeEventView::Exists(true) => (
                        SubtitleJobView { phase: Phase::ReadingCache, ..job },
                        NormalizeActionView::ListDirectory(cache_dir_of(job.root, job.video)),
                    ),
                    NormalizeEventView::Exists(false) => (
                        SubtitleJobView { phase: Phase::Probing, ..job },
                        NormalizeActionView::RunProbe(probe_arguments_of(job.video)),
                    ),
                    _ => unexpected,
                }
            },
            Phase::ReadingCache => {
                match event {
                    NormalizeEventView::Listing(entries) => (
                        SubtitleJobView { phase: Phase::Done, ..job },
                        NormalizeActionView::Finished(Ok(cached_subtitles_of(entries))),
                    ),
                    _ => unexpected,
                }
            },
            Phase::Probing => {
                match event {
                    NormalizeEventView::ToolFinished { success, stdout, stderr } => {
                        if success {
                            next_embedded(
                                SubtitleJobView { streams: streams_of(stdout), ..job },
                                0,
                            )
                        } else {
                            fail_with(job, KisaraErrorView::Any("ffprobe failed: "@ + stderr))
                        }
                    },
                    NormalizeEventView::ToolNotStarted(why) => fail_with(
                        job,
                        KisaraErrorView::Any("Failed to run ffprobe: "@ + why),
                    ),
                    _ => unexpected,
                }
            },
            Phase::EmbeddedTarget(k) => {
                let target = embedded_target_of(job.root, job.video, job.streams[k as int]);
                match event {
                    NormalizeEventView::Exists(true) => next_embedded(
                        with_produced(job, target),
                        k + 1,
                    ),
                    NormalizeEventView::Exists(false) => (
                        SubtitleJobView { phase: Phase::EmbeddedConvert(k), ..job },
                        NormalizeActionView::RunConvert(
                            extract_arguments_of(job.video, job.streams[k as int], target),
                        ),
                    ),
                    _ => unexpected,
                }
            },
            Phase::EmbeddedConvert(k) => {
                let target = embedded_target_of(job.root, job.video, job.streams[k as int]);
                after_convert(job, event, next_embedded(with_produced(job, target), k + 1))
            },
            Phase::ExternalSource(j) => {
                let source = job.externals[j as int];
                match event {
                    NormalizeEventView::Exists(true) => {
                        if file_name_of(source).len() == 0 {
                            fail_with(job, KisaraErrorView::InvalidPath(source))
                        } else {
                            (
                                SubtitleJobView { phase: Phase::ExternalTarget(j), ..job },
                                NormalizeActionView::CheckExists(
                                    external_target_of(job.root, job.video, source),
                                ),
                            )
                        }
                    },
                    NormalizeEventView::Exists(false) => fail_with(
                        job,
                        KisaraErrorView::Any("Subtitle file does not exist: "@ + source),
                    ),
                    _ => unexpected,
                }
            },
            Phase::ExternalTarget(j) => {
                let source = job.externals[j as int];
                let target = external_target_of(job.root, job.video, source);
                match event {
                    NormalizeEventView::Exists(true) => next_external(
                        with_produced(job, target),
                        j + 1,
                    ),
                    NormalizeEventView::Exists(false) => (
                        SubtitleJobView { phase: Phase::ExternalConvert(j), ..job },
                        NormalizeActionView::RunConvert(convert_arguments_of(source, target)),
                    ),
                    _ => unexpected,
                }
            },
            Phase::ExternalConvert(j) => {
                let source = job.externals[j as int];
                let target = external_target_of(job.root, job.video, source);
                after_convert(job, event, next_external(with_produced(job, target), j + 1))
            },
            Phase::WritingMarker => {
                if event is MarkerWritten {
                    (
                        SubtitleJobView { phase: Phase::Done, ..job },
                        NormalizeActionView::Finished(Ok(job.produced)),
                    )
                } else {
                    unexpected
                }
            },
            Phase::Done => unexpected,
        }
    }
}

/// Whether the stream or file that the job is working on exists.
pub open spec fn phase_in_bounds(job: SubtitleJobView) -> bool {
    match job.phase {
        Phase::EmbeddedTarget(k) | Phase::EmbeddedConvert(k) => k < job.streams.len(),
        Phase::ExternalSource(j) | Phase::ExternalTarget(j) | Phase::ExternalConvert(j) => j
            < job.externals.len(),
        _ => true,
    }
}

/// The normalisation of one video's subtitles, step by step.
pub struct SubtitleJob {
    root: String,
    video: String,
    externals: Vec<String>,
    phase: Phase,
    streams: Vec<SubtitleStream>,
    produced: Vec<String>,
}

impl View for SubtitleJob {
    type V = SubtitleJobView;

    closed spec fn view(&self) -> SubtitleJobView {
        SubtitleJobView {
            root: self.root@,
            video: self.video@,
            externals: self.externals.deep_view(),
            phase: self.phase,
            streams: self.streams.deep_view(),
            produced: self.produced.deep_view(),
        }
    }
}

/// Begins the normalisation of the subtitles of `video`: the streams embedded
/// in it and the subtitle files `subtitles` beside it. The cache lies under
/// `base_dir`. Nothing is done yet: the job waits for `Started`.
pub fn transform_subtitles(base_dir: &str, video: &str, subtitles: &[String]) -> (job: SubtitleJob)
    ensures
        job@ == initial_job(base_dir@, video@, texts_of(subtitles@)),
{
    let mut externals: Vec<String> = Vec::new();
    let mut i: usize = 0;
    while i < subtitles.len()
        invariant
            i <= subtitles.len(),
            externals.deep_view() =~= texts_of(subtitles@.take(i as int)),
        decreases subtitles.len() - i,
    {
        let one = subtitles[i].clone();
        let ghost before = externals.deep_view();
        externals.push(one);
        assert(externals.deep_view() =~= before.push(one@));
        assert(texts_of(subtitles@.take(i + 1)) =~= texts_of(subtitles@.take(i as int)).push(
            subtitles@[i as int]@,
        ));
        i += 1;
    }
    assert(subtitles@.take(i as int) =~= subtitles@);
    let streams: Vec<SubtitleStream> = Vec::new();
    let produced: Vec<String> = Vec::new();
    assert(streams.deep_view() =~= Seq::empty());
    assert(produced.deep_view() =~= Seq::empty());
    SubtitleJob {
        root: String::from_str(base_dir),
        video: String::from_str(video),
        externals,
        phase: Phase::Created,
        streams,
        produced,
    }
}

impl SubtitleJob {
    #[verifier::type_invariant]
    spec fn in_bounds(self) -> bool {
        phase_in_bounds(self@)
    }

    /// What was asked for last.
    pub fn phase(&self) -> (p: Phase)
        ensures
            p == self@.phase,
    {
        self.phase
    }

    /// Whether the work is over.
    pub fn is_done(&self) -> (b: bool)
        ensures
            b == (self@.phase == Phase::Done),
    {
        self.phase == Phase::Done
    }

    fn cache_dir(root: &String, video: &String) -> (dir: String)
        ensures
            dir@ == cache_dir_of(root@, video@),
    {
        let all = join(root.as_str(), "subtitles");
        let name = file_name(video.as_str());
        join(all.as_str(), name.as_str())
    }

    fn embedded_target(root: &String, video: &String, stream: &SubtitleStream) -> (target: String)
        ensures
            target@ == embedded_target_of(root@, video@, stream.deep_view()),
    {
        let dir = Self::cache_dir(root, video);
        let name = concat(stream.title.as_str(), ".vtt");
        join(dir.as_str(), name.as_str())
    }

    fn external_target(root: &String, video: &String, source: &String) -> (target: String)
        ensures
            target@ == external_target_of(root@, video@, source@),
    {
        let dir = Self::cache_dir(root, video);
        let name = file_name(source.as_str());
        let plain = join(dir.as_str(), name.as_str());
        with_extension(plain.as_str(), "vtt")
    }

    fn fail(
        root: String,
        video: String,
        externals: Vec<String>,
        streams: Vec<SubtitleStream>,
        produced: Vec<String>,
        error: KisaraError,
    ) -> (r: (Self, NormalizeAction))
        ensures
            r.0@ == (SubtitleJobView {
                root: root@,
                video: video@,
                externals: externals.deep_view(),
                phase: Phase::Done,
                streams: streams.deep_view(),
                produced: produced.deep_view(),
            }),
            r.1@ == NormalizeActionView::Finished(Err(error@)),
    {
        let job = SubtitleJob { root, video, externals, phase: Phase::Done, streams, produced };
        (job, NormalizeAction::Finished(Err(error)))
    }

    fn unexpected(
        root: String,
        video: String,
        externals: Vec<String>,
        streams: Vec<SubtitleStream>,
        produced: Vec<String>,
    ) -> (r: (Self, NormalizeAction))
        ensures
            r.0@ == (SubtitleJobView {
                root: root@,
                video: video@,
                externals: externals.deep_view(),
                phase: Phase::Done,
                streams: streams.deep_view(),
                produced: produced.deep_view(),
            }),
            r.1@ == NormalizeActionView::Finished(
                Err(KisaraErrorView::Any("unexpected event"@)),
            ),
    {
        Self::fail(
            root,
            video,
            externals,
            streams,
            produced,
            KisaraError::Any(text("unexpected event")),
        )
    }

    fn next_external(
        root: String,
        video: String,
        externals: Vec<String>,
        streams: Vec<SubtitleStream>,
        produced: Vec<String>,
        j: usize,
    ) -> (r: (Self, NormalizeAction))
        requires
            j <= externals.len(),
        ensures
            (r.0@, r.1@) == next_external(
                SubtitleJobView {
                    root: root@,
                    video: video@,
                    externals: externals.deep_view(),
                    phase: Phase::Created,
                    streams: streams.deep_view(),
                    produced: produced.deep_view(),
                },
                j as int,
            ),
    {
        if j < externals.len() {
            let source = externals[j].clone();
            assert(externals.deep_view()[j as int] == source@);
            let job = SubtitleJob {
                root,
                video,
                externals,
                phase: Phase::ExternalSource(j),
                streams,
                produced,
            };
            (job, NormalizeAction::CheckExists(source))
        } else {
            let dir = Self::cache_dir(&root, &video);
            let marker = join(dir.as_str(), ".kisara");
            let job = SubtitleJob {
                root,
                video,
                externals,
                phase: Phase::WritingMarker,
                streams,
                produced,
            };
            (job, NormalizeAction::WriteMarker(marker))
        }
    }

    fn next_embedded(
        root: String,
        video: String,
        externals: Vec<String>,
        streams: Vec<SubtitleStream>,
        produced: Vec<String>,
        k: usize,
    ) -> (r: (Self, NormalizeAction))
        requires
            k <= streams.len(),
        ensures
            (r.0@, r.1@) == next_embedded(
                SubtitleJobView {
                    root: root@,
                    video: video@,
                    externals: externals.deep_view(),
                    phase: Phase::Created,
                    streams: streams.deep_view(),
                    produced: produced.deep_view(),
                },
                k as int,
            ),
    {
        if k < streams.len() {
            let target = Self::embedded_target(&root, &video, &streams[k]);
            assert(streams.deep_view()[k as int] == streams[k as int].deep_view());
            let job = SubtitleJob {
                root,
                video,
                externals,
                phase: Phase::EmbeddedTarget(k),
                streams,
                produced,
            };
            (job, NormalizeAction::CheckExists(target))
        } else {
            Self::next_external(root, video, externals, streams, produced, 0)
        }
    }
}

impl SubtitleJob {
    fn after_convert(
        root: String,
        video: String,
        externals: Vec<String>,
        streams: Vec<SubtitleStream>,
        produced: Vec<String>,
        event: NormalizeEvent,
    ) -> (r: Result<
        (String, String, Vec<String>, Vec<SubtitleStream>, Vec<String>),
        (Self, NormalizeAction),
    >)
        ensures
            match r {
                Ok(parts) => {
                    &&& event@ matches NormalizeEventView::ToolFinished { success, .. } && success
                    &&& parts.0@ == root@
                    &&& parts.1@ == video@
                    &&& parts.2.deep_view() == externals.deep_view()
                    &&& parts.3.deep_view() == streams.deep_view()
                    &&& parts.4.deep_view() == produced.deep_view()
                    &&& parts.2.len() == externals.len()
                    &&& parts.3.len() == streams.len()
                },
                Err(end) => {
                    &&& !(event@ matches NormalizeEventView::ToolFinished { success, .. }
                        && success)
                    &&& forall|then: (SubtitleJobView, NormalizeActionView), phase: Phase|
                        (end.0@, end.1@) == #[trigger] after_convert(
                            SubtitleJobView {
                                root: root@,
                                video: video@,
                                externals: externals.deep_view(),
                                phase,
                                streams: streams.deep_view(),
                                produced: produced.deep_view(),
                            },
                            event@,
                            then,
                        )
                },
            },
    {
        match event {
            NormalizeEvent::ToolFinished { success, stdout, stderr } => {
                if success {
                    Ok((root, video, externals, streams, produced))
                } else {
                    let why = concat("ffmpeg failed: ", stderr.as_str());
                    Err(
                        Self::fail(
                            root,
                            video,
                            externals,
                            streams,
                            produced,
                            KisaraError::Any(why),
                        ),
                    )
                }
            },
            NormalizeEvent::ToolNotStarted(why) => {
                let why = concat("Failed to run ffmpeg: ", why.as_str());
                Err(Self::fail(root, video, externals, streams, produced, KisaraError::Any(why)))
            },
            _ => Err(Self::unexpected(root, video, externals, streams, produced)),
        }
    }

    /// Takes what the caller reports and names the next action, as
    /// [`advance_spec`] rules.
    pub fn advance(self, event: NormalizeEvent) -> (r: (SubtitleJob, NormalizeAction))
        ensures
            (r.0@, r.1@) == advance_spec(self@, event@),
    {
        proof {
            use_type_invariant(&self);
        }
        let SubtitleJob { root, video, externals, phase, streams, produced } = self;
        let mut produced = produced;
        if phase == Phase::Done {
            return Self::unexpected(root, video, externals, streams, produced);
        }
        if let NormalizeEvent::IoFailed(why) = event {
            return Self::fail(
                root,
                video,
                externals,
                streams,
                produced,
                KisaraError::StdIOError(why),
            );
        }
        match phase {
            Phase::Created => match event {
                NormalizeEvent::Started => {
                    let dir = join(root.as_str(), "subtitles");
                    let job = SubtitleJob {
                        root,
                        video,
                        externals,
                        phase: Phase::EnsuringRoot,
                        streams,
                        produced,
                    };
                    (job, NormalizeAction::EnsureDirectory(dir))
                },
                _ => Self::unexpected(root, video, externals, streams, produced),
            },
            Phase::EnsuringRoot => match event {
                NormalizeEvent::DirectoryReady => {
                    let name = file_name(video.as_str());
                    if name.as_str().unicode_len() == 0 {
                        Self::fail(
                            root,
                            video,
                            externals,
                            streams,
                            produced,
                            KisaraError::Any(text("Invalid video name")),
                        )
                    } else {
                        let dir = Self::cache_dir(&root, &video);
                        let job = SubtitleJob {
                            root,
                            video,
                            externals,
                            phase: Phase::EnsuringCache,
                            streams,
                            produced,
                        };
                        (job, NormalizeAction::EnsureDirectory(dir))
                    }
                },
                _ => Self::unexpected(root, video, externals, streams, produced),
            },
            Phase::EnsuringCache => match event {
                NormalizeEvent::DirectoryReady => {
                    let dir = Self::cache_dir(&root, &video);
                    let marker = join(dir.as_str(), ".kisara");
                    let job = SubtitleJob {
                        root,
                        video,
                        externals,
                        phase: Phase::CheckingMarker,
                        streams,
                        produced,
                    };
                    (job, NormalizeAction::CheckExists(marker))
                },
                _ => Self::unexpected(root, video, externals, streams, produced),
            },
            Phase::CheckingMarker => match event {
                NormalizeEvent::Exists(there) => {
                    if there {
                        let dir = Self::cache_dir(&root, &video);
                        let job = SubtitleJob {
                            root,
                            video,
                            externals,
                            phase: Phase::ReadingCache,
                            streams,
                            produced,
                        };
                        (job, NormalizeAction::ListDirectory(dir))
                    } else {
                        let args = probe_arguments(video.as_str());
                        let job = SubtitleJob {
                            root,
                            video,
                            externals,
                            phase: Phase::Probing,
                            streams,
                            produced,
                        };
                        (job, NormalizeAction::RunProbe(args))
                    }
                },
                _ => Self::unexpected(root, video, externals, streams, produced),
            },
            Phase::ReadingCache => match event {
                NormalizeEvent::Listing(entries) => {
                    let found = cached_subtitles(&entries);
                    let job = SubtitleJob {
                        root,
                        video,
                        externals,
                        phase: Phase::Done,
                        streams,
                        produced,
                    };
                    (job, NormalizeAction::Finished(Ok(found)))
                },
                _ => Self::unexpected(root, video, externals, streams, produced),
            },
            Phase::Probing => match event {
                NormalizeEvent::ToolFinished { success, stdout, stderr } => {
                    if success {
                        let found = parse_streams(stdout.as_str());
                        Self::next_embedded(root, video, externals, found, produced, 0)
                    } else {
                        let why = concat("ffprobe failed: ", stderr.as_str());
                        Self::fail(
                            root,
                            video,
                            externals,
                            streams,
                            produced,
                            KisaraError::Any(why),
                        )
                    }
                },
                NormalizeEvent::ToolNotStarted(why) => {
                    let why = concat("Failed to run ffprobe: ", why.as_str());
                    Self::fail(root, video, externals, streams, produced, KisaraError::Any(why))
                },
                _ => Self::unexpected(root, video, externals, streams, produced),
            },
            Phase::EmbeddedTarget(k) => {
                assert(k < streams.len());
                assert(streams.deep_view()[k as int] == streams[k as int].deep_view());
                match event {
                    NormalizeEvent::Exists(there) => {
                        let target = Self::embedded_target(&root, &video, &streams[k]);
                        if there {
                            let ghost before = produced.deep_view();
                            produced.push(target);
                            assert(produced.deep_view() =~= before.push(target@));
                            Self::next_embedded(root, video, externals, streams, produced, k + 1)
                        } else {
                            let args = extract_arguments(
                                video.as_str(),
                                &streams[k],
                                target.as_str(),
                            );
                            let job = SubtitleJob {
                                root,
                                video,
                                externals,
                                phase: Phase::EmbeddedConvert(k),
                                streams,
                                produced,
                            };
                            (job, NormalizeAction::RunConvert(args))
                        }
                    },
                    _ => Self::unexpected(root, video, externals, streams, produced),
                }
            },
            Phase::EmbeddedConvert(k) => {
                assert(streams.deep_view()[k as int] == streams[k as int].deep_view());
                match Self::after_convert(root, video, externals, streams, produced, event) {
                    Err(end) => end,
                    Ok((root, video, externals, streams, produced)) => {
                        let mut produced = produced;
                        assert(streams.deep_view()[k as int] == streams[k as int].deep_view());
                        let target = Self::embedded_target(&root, &video, &streams[k]);
                        let ghost before = produced.deep_view();
                        produced.push(target);
                        assert(produced.deep_view() =~= before.push(target@));
                        Self::next_embedded(root, video, externals, streams, produced, k + 1)
                    },
                }
            },
            Phase::ExternalSource(j) => {
                assert(externals.deep_view()[j as int] == externals[j as int]@);
                match event {
                    NormalizeEvent::Exists(there) => {
                        if there {
                            let name = file_name(externals[j].as_str());
                            if name.as_str().unicode_len() == 0 {
                                let source = externals[j].clone();
                                Self::fail(
                                    root,
                                    video,
                                    externals,
                                    streams,
                                    produced,
                                    KisaraError::InvalidPath(source),
                                )
                            } else {
                                let target = Self::external_target(&root, &video, &externals[j]);
                                let job = SubtitleJob {
                                    root,
                                    video,
                                    externals,
                                    phase: Phase::ExternalTarget(j),
                                    streams,
                                    produced,
                                };
                                (job, NormalizeAction::CheckExists(target))
                            }
                        } else {
                            let why = concat(
                                "Subtitle file does not exist: ",
                                externals[j].as_str(),
                            );
                            Self::fail(
                                root,
                                video,
                                externals,
                                streams,
                                produced,
                                KisaraError::Any(why),
                            )
                        }
                    },
                    _ => Self::unexpected(root, video, externals, streams, produced),
                }
            },
            Phase::ExternalTarget(j) => {
                assert(j < externals.len());
                assert(externals.deep_view()[j as int] == externals[j as int]@);
                match event {
                    NormalizeEvent::Exists(there) => {
                        let target = Self::external_target(&root, &video, &externals[j]);
                        if there {
                            let ghost before = produced.deep_view();
                            produced.push(target);
                            assert(produced.deep_view() =~= before.push(target@));
                            Self::next_external(root, video, externals, streams, produced, j + 1)
                        } else {
                            let args = convert_arguments(externals[j].as_str(), target.as_str());
                            let job = SubtitleJob {
                                root,
                                video,
                                externals,
                                phase: Phase::ExternalConvert(j),
                                streams,
                                produced,
                            };
                            (job, NormalizeAction::RunConvert(args))
                        }
                    },
                    _ => Self::unexpected(root, video, externals, streams, produced),
                }
            },
            Phase::ExternalConvert(j) => {
                assert(externals.deep_view()[j as int] == externals[j as int]@);
                match Self::after_convert(root, video, externals, streams, produced, event) {
                    Err(end) => end,
                    Ok((root, video, externals, streams, produced)) => {
                        let mut produced = produced;
                        assert(externals.deep_view()[j as int] == externals[j as int]@);
                        let target = Self::external_target(&root, &video, &externals[j]);
                        let ghost before = produced.deep_view();
                        produced.push(target);
                        assert(produced.deep_view() =~= before.push(target@));
                        Self::next_external(root, video, externals, streams, produced, j + 1)
                    },
                }
            },
            Phase::WritingMarker => match event {
                NormalizeEvent::MarkerWritten => {
                    let list = produced.clone();
                    let job = SubtitleJob {
                        root,
                        video,
                        externals,
                        phase: Phase::Done,
                        streams,
                        produced,
                    };
                    (job, NormalizeAction::Finished(Ok(list)))
                },
                _ => Self::unexpected(root, video, externals, streams, produced),
            },
            Phase::Done => Self::unexpected(root, video, externals, streams, produced),
        }
    }
}

/// Whether a job's list of normalised subtitles is what its phase says: the
/// targets of the streams and files that are done, in their order.
pub open spec fn well_formed(job: SubtitleJobView) -> bool {
    let embedded = embedded_targets_of(job.root, job.video, job.streams);
    &&& job.streams.len() <= usize::MAX
    &&& job.externals.len() <= usize::MAX
    &&& phase_in_bounds(job)
    &&& match job.phase {
        Phase::Created
        | Phase::EnsuringRoot
        | Phase::EnsuringCache
        | Phase::CheckingMarker
        | Phase::ReadingCache
        | Phase::Probing => job.streams.len() == 0 && job.produced.len() == 0,
        Phase::EmbeddedTarget(k) | Phase::EmbeddedConvert(k) => job.produced
            == embedded.take(k as int),
        Phase::ExternalSource(j) | Phase::ExternalTarget(j) | Phase::ExternalConvert(j) => {
            job.produced == embedded + external_targets_of(
                job.root,
                job.video,
                job.externals,
            ).take(j as int)
        },
        Phase::WritingMarker => job.produced == embedded + external_targets_of(
            job.root,
            job.video,
            job.externals,
        ),
        Phase::Done => true,
    }
}

/// Whether an action runs one of the media tools.
pub open spec fn is_tool_run(action: NormalizeActionView) -> bool {
    action is RunProbe || action is RunConvert
}

/// The actions that a job names in answer to the given events, one for each.
pub open spec fn actions_of(job: SubtitleJobView, events: Seq<NormalizeEventView>) -> Seq<
    NormalizeActionView,
>
    decreases events.len(),
{
    if events.len() == 0 {
        Seq::empty()
    } else {
        let (next, action) = advance_spec(job, events[0]);
        seq![action] + actions_of(next, events.drop_first())
    }
}

/// Whether an event says that a tool failed or did not start.
pub open spec fn is_tool_failure(event: NormalizeEventView) -> bool {
    event is ToolNotStarted || (event matches NormalizeEventView::ToolFinished { success, .. }
        && !success)
}

proof fn lemma_external_step_keeps_form(job: SubtitleJobView, j: int)
    requires
        job.streams.len() <= usize::MAX,
        job.externals.len() <= usize::MAX,
        0 <= j <= job.externals.len(),
        job.produced == embedded_targets_of(job.root, job.video, job.streams)
            + external_targets_of(job.root, job.video, job.externals).take(j),
    ensures
        well_formed(next_external(job, j).0),
{
    let all = external_targets_of(job.root, job.video, job.externals);
    if j >= job.externals.len() {
        assert(all.take(j) =~= all);
    }
}

proof fn lemma_embedded_step_keeps_form(job: SubtitleJobView, k: int)
    requires
        job.streams.len() <= usize::MAX,
        job.externals.len() <= usize::MAX,
        0 <= k <= job.streams.len(),
        job.produced == embedded_targets_of(job.root, job.video, job.streams).take(k),
    ensures
        well_formed(next_embedded(job, k).0),
{
    let embedded = embedded_targets_of(job.root, job.video, job.streams);
    if k >= job.streams.len() {
        assert(embedded.take(k) =~= embedded);
        let externals = external_targets_of(job.root, job.video, job.externals);
        assert(job.produced =~= embedded + externals.take(0));
        lemma_external_step_keeps_form(job, 0);
    }
}

/// Whether the streams that an event reports can be held in memory.
pub open spec fn event_fits(event: NormalizeEventView) -> bool {
    event matches NormalizeEventView::ToolFinished { stdout, .. } ==> streams_of(stdout).len()
        <= usize::MAX
}

/// A job's list of normalised subtitles stays what its phase says, whatever
/// the caller reports.
pub proof fn law_advance_keeps_form(job: SubtitleJobView, event: NormalizeEventView)
    requires
        well_formed(job),
        event_fits(event),
    ensures
        well_formed(advance_spec(job, event).0),
{
    let embedded = embedded_targets_of(job.root, job.video, job.streams);
    let externals = external_targets_of(job.root, job.video, job.externals);
    if job.phase == Phase::Done || event is IoFailed {
    } else {
        match job.phase {
            Phase::Probing => {
                if let NormalizeEventView::ToolFinished { success, stdout, stderr } = event {
                    if success {
                        let probed = SubtitleJobView { streams: streams_of(stdout), ..job };
                        assert(probed.produced =~= embedded_targets_of(
                            probed.root,
                            probed.video,
                            probed.streams,
                        ).take(0));
                        lemma_embedded_step_keeps_form(probed, 0);
                    }
                }
            },
            Phase::EmbeddedTarget(k) | Phase::EmbeddedConvert(k) => {
                let target = embedded_target_of(job.root, job.video, job.streams[k as int]);
                let more = with_produced(job, target);
                assert(more.produced =~= embedded.take(k + 1));
                lemma_embedded_step_keeps_form(more, k + 1);
            },
            Phase::ExternalTarget(j) | Phase::ExternalConvert(j) => {
                let target = external_target_of(job.root, job.video, job.externals[j as int]);
                let more = with_produced(job, target);
                assert(more.produced =~= embedded + externals.take(j + 1));
                lemma_external_step_keeps_form(more, j + 1);
            },
            _ => {},
        }
    }
}

/// Every normalised subtitle that a complete conversion leaves in the cache:
/// the targets of the embedded streams, then those of the subtitle files.
pub open spec fn all_targets_of(job: SubtitleJobView) -> Seq<Seq<char>> {
    embedded_targets_of(job.root, job.video, job.streams) + external_targets_of(
        job.root,
        job.video,
        job.externals,
    )
}

/// The marker file is ordered only when every embedded stream and every
/// subtitle file has its normalised form in the cache, and the job then ends
/// with the list of them all.
pub proof fn law_marker_is_written_last(job: SubtitleJobView, event: NormalizeEventView)
    requires
        well_formed(job),
        event_fits(event),
        advance_spec(job, event).1 is WriteMarker,
    ensures
        ({
            let (marked, action) = advance_spec(job, event);
            &&& action == NormalizeActionView::WriteMarker(marker_of(job.root, job.video))
            &&& marked.produced == all_targets_of(marked)
            &&& advance_spec(marked, NormalizeEventView::MarkerWritten).1
                == NormalizeActionView::Finished(Ok(all_targets_of(marked)))
        }),
{
    law_advance_keeps_form(job, event);
}

/// A job that is over stays over: whatever is reported to it, it orders
/// nothing.
pub proof fn law_done_stays_done(job: SubtitleJobView, events: Seq<NormalizeEventView>)
    requires
        job.phase == Phase::Done,
    ensures
        forall|i: int|
            0 <= i < actions_of(job, events).len() ==> (#[trigger] actions_of(
                job,
                events,
            )[i]) is Finished,
        actions_of(job, events).len() == events.len(),
    decreases events.len(),
{
    if events.len() > 0 {
        law_done_stays_done(advance_spec(job, events[0]).0, events.drop_first());
    }
}

/// With the marker file present no tool runs and no marker is written: a
/// job that finds the marker lists the cache directory and ends with its
/// `vtt` entries, in the order of the listing, and orders nothing after
/// that. Two jobs that are given the same listing end with the same list.
/// (A video path without a file name ends the job before the marker is
/// looked for.)
pub proof fn law_cached_subtitles_need_no_tool(
    root: Seq<char>,
    video: Seq<char>,
    externals: Seq<Seq<char>>,
    entries: Seq<Seq<char>>,
    more: Seq<NormalizeEventView>,
)
    ensures
        ({
            let events = seq![
                NormalizeEventView::Started,
                NormalizeEventView::DirectoryReady,
                NormalizeEventView::DirectoryReady,
                NormalizeEventView::Exists(true),
                NormalizeEventView::Listing(entries),
            ] + more;
            let actions = actions_of(initial_job(root, video, externals), events);
            &&& actions.len() == events.len()
            &&& forall|i: int| 0 <= i < actions.len() ==> !is_tool_run(#[trigger] actions[i])
            &&& forall|i: int| 0 <= i < actions.len() ==> !(#[trigger] actions[i] is WriteMarker)
            &&& file_name_of(video).len() > 0 ==> actions[3] == NormalizeActionView::ListDirectory(
                cache_dir_of(root, video),
            ) && actions[4] == NormalizeActionView::Finished(Ok(cached_subtitles_of(entries)))
        }),
{
    let events = seq![
        NormalizeEventView::Started,
        NormalizeEventView::DirectoryReady,
        NormalizeEventView::DirectoryReady,
        NormalizeEventView::Exists(true),
        NormalizeEventView::Listing(entries),
    ] + more;
    let j0 = initial_job(root, video, externals);
    let (j1, a0) = advance_spec(j0, events[0]);
    let (j2, a1) = advance_spec(j1, events[1]);
    let (j3, a2) = advance_spec(j2, events[2]);
    let (j4, a3) = advance_spec(j3, events[3]);
    let (j5, a4) = advance_spec(j4, events[4]);
    assert(j5.phase == Phase::Done);
    let e1 = events.drop_first();
    let e2 = e1.drop_first();
    let e3 = e2.drop_first();
    let e4 = e3.drop_first();
    let e5 = e4.drop_first();
    assert(e5 =~= more);
    assert(e1[0] == events[1] && e2[0] == events[2] && e3[0] == events[3] && e4[0] == events[4]);
    law_done_stays_done(j5, more);
    let tail = actions_of(j5, more);
    assert(actions_of(j4, e4) =~= seq![a4] + tail);
    assert(actions_of(j3, e3) =~= seq![a3, a4] + tail);
    assert(actions_of(j2, e2) =~= seq![a2, a3, a4] + tail);
    assert(actions_of(j1, e1) =~= seq![a1, a2, a3, a4] + tail);
    assert(actions_of(j0, events) =~= seq![a0, a1, a2, a3, a4] + tail);
    let actions = actions_of(j0, events);
    assert forall|i: int| 0 <= i < actions.len() implies !is_tool_run(#[trigger] actions[i])
        && !(actions[i] is WriteMarker) by {
        if i >= 5 {
            assert(actions[i] == tail[i - 5]);
        }
    }
}

/// A tool that fails, or cannot be started, ends the job with an error: the
/// marker file is never ordered after it, and no tool runs again.
pub proof fn law_tool_failure_ends_job(
    job: SubtitleJobView,
    event: NormalizeEventView,
    more: Seq<NormalizeEventView>,
)
    requires
        is_tool_failure(event),
    ensures
        ({
            let actions = actions_of(job, seq![event] + more);
            &&& actions.len() == more.len() + 1
            &&& actions[0] matches NormalizeActionView::Finished(Err(_))
            &&& forall|i: int|
                0 <= i < actions.len() ==> !(#[trigger] actions[i] is WriteMarker) && !is_tool_run(
                    actions[i],
                )
        }),
{
    let events = seq![event] + more;
    let (next, first) = advance_spec(job, event);
    assert(events.drop_first() =~= more);
    assert(next.phase == Phase::Done);
    law_done_stays_done(next, more);
    let tail = actions_of(next, more);
    let actions = actions_of(job, events);
    assert(actions =~= seq![first] + tail);
    assert forall|i: int| 0 <= i < actions.len() implies !(#[trigger] actions[i] is WriteMarker)
        && !is_tool_run(actions[i]) by {
        if i >= 1 {
            assert(actions[i] == tail[i - 1]);
        }
    }
}

proof fn lemma_vtt_is_a_plain_extension()
    ensures
        is_plain_name("vtt"@),
        !"vtt"@.contains('.'),
        ".vtt"@ == seq!['.'] + "vtt"@,
        is_plain_name(".vtt"@),
{
    reveal_strlit("vtt");
    reveal_strlit(".vtt");
    assert(".vtt"@ =~= seq!['.'] + "vtt"@);
    if "vtt"@.contains('.') {
        let k = choose|k: int| 0 <= k < "vtt"@.len() && "vtt"@[k] == '.';
        assert(k == 0 || k == 1 || k == 2);
    }
}

/// The normalised form of a subtitle file lies in the cache directory itself,
/// under the file's name with the extension `vtt` in place of its own, and
/// is so one of the files that a later reading of the cache returns. This
/// holds of a file whose path has a file name; a job refuses any other.
pub proof fn law_external_target_is_a_vtt_file_of_the_cache(
    root: Seq<char>,
    video: Seq<char>,
    source: Seq<char>,
)
    requires
        file_name_of(source).len() > 0,
    ensures
        ({
            let cache = cache_dir_of(root, video);
            let target = external_target_of(root, video, source);
            let name = with_extension_of(file_name_of(source), "vtt"@);
            &&& is_vtt(target)
            &&& is_plain_name(name)
            &&& target == join_of(cache, name)
            &&& file_name_of(target) == name
            &&& lies_under(cache, target)
        }),
{
    let cache = cache_dir_of(root, video);
    let prefix = directory_prefix_of(cache);
    let old_name = file_name_of(source);
    let plain = join_of(cache, old_name);
    let name = with_extension_of(old_name, "vtt"@);
    lemma_vtt_is_a_plain_extension();
    law_file_name_holds_no_separator(source);
    law_joined_path_ends_with_the_child(cache, old_name);
    assert(name_start(plain) == prefix.len()) by {
        assert(plain.skip(name_start(plain)).len() == old_name.len());
        law_file_name_holds_no_separator(plain);
    }
    assert(plain.take(prefix.len() as int) =~= prefix);
    law_replaced_extension_is_the_extension(plain, "vtt"@);
    law_joined_path_ends_with_the_child(cache, name);
}

/// The normalised form of an embedded stream lies in the cache directory or
/// below it, under the stream's title with the extension `vtt`, and is so
/// one of the files that a later reading of its directory returns. This
/// holds of a title that does not end in a separator and is not empty; a
/// title without any separator puts the file into the cache directory
/// itself.
pub proof fn law_embedded_target_is_a_vtt_file_of_the_cache(
    root: Seq<char>,
    video: Seq<char>,
    stream: SubtitleStreamView,
)
    ensures
        ({
            let cache = cache_dir_of(root, video);
            let target = embedded_target_of(root, video, stream);
            &&& lies_under(cache, target)
            &&& file_name_of(target) == file_name_of(stream.title) + ".vtt"@
            &&& file_name_of(stream.title).len() > 0 ==> is_vtt(target)
            &&& is_plain_name(stream.title) ==> file_name_of(target) == stream.title + ".vtt"@
        }),
{
    let cache = cache_dir_of(root, video);
    let title = stream.title;
    let child = title + ".vtt"@;
    let last = file_name_of(title);
    lemma_vtt_is_a_plain_extension();
    law_joined_path_ends_with_the_child(cache, child);
    law_file_name_holds_no_separator(title);
    lemma_plain_name_starts_at_its_beginning(".vtt"@);
    lemma_name_start_of_parts(title, ".vtt"@);
    assert(file_name_of(child) =~= last + ".vtt"@);
    if is_plain_name(title) {
        lemma_plain_name_starts_at_its_beginning(title);
        assert(last =~= title);
    }
    if last.len() > 0 {
        let name = last + seq!['.'] + "vtt"@;
        assert(name =~= last + ".vtt"@);
        law_appended_extension_is_the_extension(last, "vtt"@);
        lemma_plain_name_starts_at_its_beginning(name);
        assert(file_name_of(name) =~= name);
    }
}

/// Every normalised subtitle that a complete conversion leaves is a `vtt`
/// file that lies under the cache directory of the video: the form of an
/// embedded stream, unless its title is empty or ends in a separator, and
/// the form of a subtitle file that has a file name.
pub proof fn law_normalised_subtitles_are_vtt_files_of_the_cache(job: SubtitleJobView, i: int)
    requires
        0 <= i < all_targets_of(job).len(),
    ensures
        ({
            let cache = cache_dir_of(job.root, job.video);
            let target = all_targets_of(job)[i];
            let embedded = job.streams.len() as int;
            &&& i < embedded ==> lies_under(cache, target)
            &&& i < embedded && file_name_of(job.streams[i].title).len() > 0 ==> is_vtt(target)
            &&& i >= embedded && file_name_of(job.externals[i - embedded]).len() > 0 ==> is_vtt(
                target,
            ) && lies_under(cache, target)
        }),
{
    let embedded = job.streams.len() as int;
    if i < embedded {
        assert(all_targets_of(job)[i] == embedded_target_of(job.root, job.video, job.streams[i]));
        law_embedded_target_is_a_vtt_file_of_the_cache(job.root, job.video, job.streams[i]);
    } else {
        let source = job.externals[i - embedded];
        assert(all_targets_of(job)[i] == external_target_of(job.root, job.video, source));
        if file_name_of(source).len() > 0 {
            law_external_target_is_a_vtt_file_of_the_cache(job.root, job.video, source);
        }
    }
}

} // verus!
