//! The playback endpoint's bookkeeping: under which names a video and its
//! subtitles are served, and which selection is served now. At most one
//! selection is served at a time; a new one takes the place of the old.

use vstd::prelude::*;
use vstd::string::StringSliceAdditionalSpecFns;
use crate::paths::{file_name, file_name_of};
use crate::text::{push_text, str_equal, texts_of};

verus! {

#[verifier::external_type_specification]
#[verifier::external_body]
#[verifier::reject_recursive_types(T)]
pub struct ExSender<T>(tokio::sync::oneshot::Sender<T>);

#[verifier::external_type_specification]
#[verifier::external_body]
#[verifier::reject_recursive_types(T)]
pub struct ExReceiver<T>(tokio::sync::oneshot::Receiver<T>);

/// The error of a receiving end whose sending end is gone. Nothing here
/// handles one; it is declared because a receiving end, as a future, names
/// it as part of its output, and Verus reads that with the receiving end.
#[verifier::external_type_specification]
#[verifier::external_body]
pub struct ExRecvError(tokio::sync::oneshot::error::RecvError);

/// The channel that a sending end belongs to.
pub uninterp spec fn sender_channel(sender: tokio::sync::oneshot::Sender<()>) -> int;

/// The channel that a receiving end belongs to.
pub uninterp spec fn receiver_channel(receiver: tokio::sync::oneshot::Receiver<()>) -> int;

/// Calls `tokio::sync::oneshot::channel`: the two ends that come back belong
/// to one channel.
#[verifier::external_body]
fn new_channel() -> (ends: (tokio::sync::oneshot::Sender<()>, tokio::sync::oneshot::Receiver<()>))
    ensures
        sender_channel(ends.0) == receiver_channel(ends.1),
{
    tokio::sync::oneshot::channel()
}

/// Calls `Sender::send` with the unit value and drops the answer: the
/// receiving end is woken if it still exists, and nothing happens if not.
#[verifier::external_body]
fn fire(sender: tokio::sync::oneshot::Sender<()>) {
    let _ = sender.send(());
}

/// Whether a byte stands for itself in a percent-encoded text: letters,
/// digits, `-`, `.`, `_` and `~` do.
pub open spec fn is_unreserved(b: u8) -> bool {
    (0x30 <= b && b <= 0x39) || (0x41 <= b && b <= 0x5a) || (0x61 <= b && b <= 0x7a) || b == 0x2d
        || b == 0x2e || b == 0x5f || b == 0x7e
}

/// The upper-case hexadecimal digit of a number below 16.
pub open spec fn hex_digit(n: int) -> char {
    if n < 10 {
        (0x30 + n) as u8 as char
    } else {
        (0x41 + n - 10) as u8 as char
    }
}

/// The percent-encoding of one byte.
pub open spec fn percent_encoded_byte(b: u8) -> Seq<char> {
    if is_unreserved(b) {
        seq![b as char]
    } else {
        seq!['%', hex_digit(b as int / 16), hex_digit(b as int % 16)]
    }
}

/// The percent-encoding of a byte string: each byte's encoding, in order.
pub open spec fn percent_encoded(bytes: Seq<u8>) -> Seq<char>
    decreases bytes.len(),
{
    if bytes.len() == 0 {
        Seq::empty()
    } else {
        percent_encoded(bytes.drop_last()) + percent_encoded_byte(bytes.last())
    }
}

/// Calls `urlencoding::encode`, which percent-encodes every byte of the
/// text's UTF-8 form except letters, digits, `-`, `.`, `_` and `~`, with
/// upper-case hexadecimal digits.
#[verifier::external_body]
fn url_encode(text: &str) -> (encoded: String)
    ensures
        encoded@ == percent_encoded(text.spec_bytes()),
{
    urlencoding::encode(text).into_owned()
}

/// The name under which a file is served: its file name, percent-encoded.
pub open spec fn route_name_of(path: Seq<char>) -> Seq<char> {
    percent_encoded(vstd::utf8::encode_utf8(file_name_of(path)))
}

/// The names under which the given files are served, in their order.
pub open spec fn route_names_of(paths: Seq<Seq<char>>) -> Seq<Seq<char>> {
    Seq::new(paths.len(), |i: int| route_name_of(paths[i]))
}

/// The name under which a file is served.
pub fn route_name(path: &str) -> (name: String)
    ensures
        name@ == route_name_of(path@),
{
    let name = file_name(path);
    url_encode(name.as_str())
}

/// A video and its subtitles: as files, or as the names under which they are
/// served.
#[derive(Debug)]
pub struct PlayServeInfo {
    pub video: String,
    pub subtitles: Vec<String>,
}

/// The mathematical value of a [`PlayServeInfo`].
pub struct PlayServeInfoView {
    pub video: Seq<char>,
    pub subtitles: Seq<Seq<char>>,
}

impl DeepView for PlayServeInfo {
    type V = PlayServeInfoView;

    open spec fn deep_view(&self) -> PlayServeInfoView {
        PlayServeInfoView { video: self.video@, subtitles: self.subtitles.deep_view() }
    }
}

impl Clone for PlayServeInfo {
    fn clone(&self) -> (r: Self)
        ensures
            r.deep_view() == self.deep_view(),
    {
        let subtitles = self.subtitles.clone();
        assert(subtitles.deep_view() == self.subtitles.deep_view());
        PlayServeInfo { video: self.video.clone(), subtitles }
    }
}

/// The names under which a video and its subtitles are served: the
/// percent-encoded file name of each. The caller serves each file at `/` and
/// its name.
pub fn serve_entrypoint(video: &str, subtitles: &[String]) -> (names: (String, Vec<String>))
    ensures
        names.0@ == route_name_of(video@),
        names.1.deep_view() == route_names_of(texts_of(subtitles@)),
{
    let mut names: Vec<String> = Vec::new();
    let ghost all = route_names_of(texts_of(subtitles@));
    let mut i: usize = 0;
    assert(all.take(0) =~= Seq::<Seq<char>>::empty());
    while i < subtitles.len()
        invariant
            i <= subtitles.len(),
            all == route_names_of(texts_of(subtitles@)),
            names.deep_view() =~= all.take(i as int),
        decreases subtitles.len() - i,
    {
        push_text(&mut names, route_name(subtitles[i].as_str()));
        assert(all.take(i + 1) =~= all.take(i as int).push(all[i as int]));
        i += 1;
    }
    assert(all.take(i as int) =~= all);
    (route_name(video), names)
}

/// The names under which the files of `info` are served.
pub fn serve_video(info: &PlayServeInfo) -> (served: PlayServeInfo)
    ensures
        served.video@ == route_name_of(info.video@),
        served.subtitles.deep_view() == route_names_of(info.subtitles.deep_view()),
{
    let (video, subtitles) = serve_entrypoint(info.video.as_str(), info.subtitles.as_slice());
    assert(texts_of(info.subtitles@) =~= info.subtitles.deep_view());
    PlayServeInfo { video, subtitles }
}

/// Which selection is served now: the torrent, what is served of it, and the
/// sending end of the channel that stops its server.
pub struct ServeSignal {
    sender: Option<tokio::sync::oneshot::Sender<()>>,
    torrent_id: Option<String>,
    info: Option<PlayServeInfo>,
    stopped: Ghost<Seq<int>>,
}

/// The mathematical value of a [`ServeSignal`].
pub struct ServeSignalView {
    /// The torrent that was selected last.
    pub torrent_id: Option<Seq<char>>,
    /// What was served last.
    pub info: Option<PlayServeInfoView>,
    /// The channel whose sending end is held, if one is.
    pub channel: Option<int>,
    /// The channels whose sending ends were fired, in the order in which
    /// they were.
    pub stopped: Seq<int>,
}

/// The channels that are stopped once the sending end that is held, if one
/// is, has been fired too.
pub open spec fn stopped_with_held(signal: ServeSignalView) -> Seq<int> {
    match signal.channel {
        Some(channel) => signal.stopped.push(channel),
        None => signal.stopped,
    }
}

/// Whether `torrent_id` is the selection that is served already: it was
/// selected last, and what is served is known.
pub open spec fn is_current(signal: ServeSignalView, torrent_id: Seq<char>) -> bool {
    signal.torrent_id == Some(torrent_id) && signal.info is Some
}

/// The state after `torrent_id` is selected: unchanged where it is served
/// already; else it is the selection, the sending end that was held is
/// fired, and the sending end of `channel`, a new channel, is held in its
/// place. What was served last stays known.
pub open spec fn selected(
    signal: ServeSignalView,
    torrent_id: Seq<char>,
    channel: int,
) -> ServeSignalView {
    if is_current(signal, torrent_id) {
        signal
    } else {
        ServeSignalView {
            torrent_id: Some(torrent_id),
            info: signal.info,
            channel: Some(channel),
            stopped: stopped_with_held(signal),
        }
    }
}

impl View for ServeSignal {
    type V = ServeSignalView;

    closed spec fn view(&self) -> ServeSignalView {
        ServeSignalView {
            torrent_id: self.torrent_id.deep_view(),
            info: self.info.deep_view(),
            channel: match self.sender {
                Some(sender) => Some(sender_channel(sender)),
                None => None,
            },
            stopped: self.stopped@,
        }
    }
}

impl Default for ServeSignal {
    fn default() -> (signal: Self)
        ensures
            signal@ == (ServeSignalView {
                torrent_id: None,
                info: None,
                channel: None,
                stopped: Seq::empty(),
            }),
    {
        ServeSignal { sender: None, torrent_id: None, info: None, stopped: Ghost(Seq::empty()) }
    }
}

impl ServeSignal {
    /// Stops the server of the selection, if one may be running: the sending
    /// end that is held is fired and given up, and its channel is from then
    /// on among the stopped ones. Without one, nothing happens.
    pub fn send(&mut self)
        ensures
            final(self)@ == (ServeSignalView {
                channel: None,
                stopped: stopped_with_held(old(self)@),
                ..old(self)@
            }),
    {
        match self.sender.take() {
            Some(sender) => {
                self.stopped = Ghost(self.stopped@.push(sender_channel(sender)));
                fire(sender);
            },
            None => {},
        }
    }

    /// Selects `torrent_id`. Where it is served already, nothing changes and
    /// there is no new receiver: what is served is to be used again. Else
    /// the server of the selection before is stopped, and the receiving end
    /// of a new channel comes back, whose sending end is held from now on.
    pub fn reset(&mut self, torrent_id: &str) -> (receiver: Option<
        tokio::sync::oneshot::Receiver<()>,
    >)
        ensures
            receiver is None <==> is_current(old(self)@, torrent_id@),
            receiver is None ==> final(self)@ == old(self)@,
            receiver is Some ==> final(self)@ == selected(
                old(self)@,
                torrent_id@,
                receiver_channel(receiver->0),
            ),
    {
        let same = match &self.torrent_id {
            Some(id) => str_equal(id.as_str(), torrent_id) && self.info.is_some(),
            None => false,
        };
        if same {
            return None;
        }
        self.torrent_id = Some(String::from_str(torrent_id));
        self.send();
        let (sender, receiver) = new_channel();
        self.sender = Some(sender);
        Some(receiver)
    }

    /// Records what is served of the selection.
    pub fn set_info(&mut self, info: PlayServeInfo)
        ensures
            final(self)@ == (ServeSignalView { info: Some(info.deep_view()), ..old(self)@ }),
    {
        self.info = Some(info);
    }

    /// What was served last, if anything was.
    pub fn get_info(&self) -> (info: Option<PlayServeInfo>)
        ensures
            info.deep_view() == self@.info,
    {
        match &self.info {
            Some(info) => Some(info.clone()),
            None => None,
        }
    }
}

/// A selection that is not served already stops the server before: the
/// sending end that was held is fired, so its channel is the last of the
/// stopped ones, and the new channel's sending end is held in its place.
/// No channel that was stopped is forgotten. Without a sending end held,
/// nothing is fired.
pub proof fn law_new_selection_stops_the_server_before(
    signal: ServeSignalView,
    torrent_id: Seq<char>,
    channel: int,
)
    requires
        !is_current(signal, torrent_id),
    ensures
        ({
            let next = selected(signal, torrent_id, channel);
            &&& next.torrent_id == Some(torrent_id)
            &&& next.channel == Some(channel)
            &&& next.info == signal.info
            &&& signal.channel matches Some(held) ==> next.stopped == signal.stopped.push(held)
                && next.stopped.contains(held)
            &&& signal.channel is None ==> next.stopped == signal.stopped
            &&& forall|c: int| signal.stopped.contains(c) ==> next.stopped.contains(c)
        }),
{
    let next = selected(signal, torrent_id, channel);
    if let Some(held) = signal.channel {
        assert(next.stopped[signal.stopped.len() as int] == held);
        assert forall|c: int| signal.stopped.contains(c) implies next.stopped.contains(c) by {
            let k = choose|k: int| 0 <= k < signal.stopped.len() && signal.stopped[k] == c;
            assert(next.stopped[k] == c);
        }
    }
}

/// Selecting the same torrent again, once what is served of it is recorded,
/// changes nothing, whatever new channel is offered: no sending end is
/// fired. Selecting another torrent then makes that one the selection, fires
/// the sending end of the channel that was handed out first, and holds the
/// new one.
pub proof fn law_reset_is_idempotent(
    signal: ServeSignalView,
    torrent_id: Seq<char>,
    other: Seq<char>,
    info: PlayServeInfoView,
    first: int,
    second: int,
)
    requires
        other != torrent_id,
    ensures
        ({
            let served = ServeSignalView {
                info: Some(info),
                ..selected(signal, torrent_id, first)
            };
            let next = selected(served, other, second);
            &&& is_current(served, torrent_id)
            &&& selected(served, torrent_id, second) == served
            &&& !is_current(served, other)
            &&& next.torrent_id == Some(other)
            &&& next.channel == Some(second)
            &&& next.stopped == stopped_with_held(served)
            &&& !is_current(signal, torrent_id) ==> served.channel == Some(first) && next.stopped
                == served.stopped.push(first)
        }),
{
}

/// Selecting the same torrent again while nothing is recorded of it serves
/// it anew: the sending end of the channel that was handed out first is
/// fired, and the new one is held.
pub proof fn law_selection_without_result_is_served_anew(
    signal: ServeSignalView,
    torrent_id: Seq<char>,
    first: int,
    second: int,
)
    requires
        signal.info is None,
    ensures
        ({
            let once = selected(signal, torrent_id, first);
            let twice = selected(once, torrent_id, second);
            &&& once.channel == Some(first)
            &&& !is_current(once, torrent_id)
            &&& twice.channel == Some(second)
            &&& twice.stopped == once.stopped.push(first)
        }),
{
}

/// The SHA-256 digest of a byte string, in lower-case hexadecimal digits.
pub uninterp spec fn sha256_hex_of(bytes: Seq<u8>) -> Seq<char>;

/// Calls `sha2::Sha256::digest` on the text's bytes and writes the digest
/// with `{:x}`: the digits that `sha256_hex_of` names.
#[verifier::external_body]
fn sha256_hex(text: &str) -> (hex: String)
    ensures
        hex@ == sha256_hex_of(text.spec_bytes()),
{
    format!("{:x}", <sha2::Sha256 as sha2::Digest>::digest(text))
}

/// The name under which a file is served by its hash: the digest of its
/// path.
pub open spec fn hashed_name_of(path: Seq<char>) -> Seq<char> {
    sha256_hex_of(vstd::utf8::encode_utf8(path))
}

/// A served file: its name and its path.
#[derive(Debug)]
pub struct ServedFile {
    pub name: String,
    pub path: String,
}

/// The mathematical value of a [`ServedFile`].
pub struct ServedFileView {
    pub name: Seq<char>,
    pub path: Seq<char>,
}

impl DeepView for ServedFile {
    type V = ServedFileView;

    open spec fn deep_view(&self) -> ServedFileView {
        ServedFileView { name: self.name@, path: self.path@ }
    }
}

/// The file that is served under a name: the one that was entered last
/// under it.
pub open spec fn served_under(files: Seq<ServedFileView>, name: Seq<char>) -> Option<Seq<char>>
    decreases files.len(),
{
    if files.len() == 0 {
        None
    } else if files.last().name == name {
        Some(files.last().path)
    } else {
        served_under(files.drop_last(), name)
    }
}

/// The entries of the given files under their hashed names, in their order.
pub open spec fn hashed_entries_of(paths: Seq<Seq<char>>) -> Seq<ServedFileView> {
    Seq::new(
        paths.len(),
        |i: int| ServedFileView { name: hashed_name_of(paths[i]), path: paths[i] },
    )
}

/// The hashed names of the given files, in their order.
pub open spec fn hashed_names_of(paths: Seq<Seq<char>>) -> Seq<Seq<char>> {
    Seq::new(paths.len(), |i: int| hashed_name_of(paths[i]))
}

/// The files that are served under the hashes of their paths.
pub struct ServeState {
    file_maps: Vec<ServedFile>,
}

impl View for ServeState {
    type V = Seq<ServedFileView>;

    closed spec fn view(&self) -> Seq<ServedFileView> {
        self.file_maps.deep_view()
    }
}

impl ServeState {
    /// Nothing is served.
    pub fn new() -> (state: Self)
        ensures
            state@.len() == 0,
    {
        let file_maps: Vec<ServedFile> = Vec::new();
        assert(file_maps.deep_view() =~= Seq::empty());
        ServeState { file_maps }
    }

    /// Enters a video and its subtitles, each under the hash of its path,
    /// and tells the names: the video's, then the subtitles' in their
    /// order.
    pub fn files(&mut self, video: &str, subtitles: &[String]) -> (names: (String, Vec<String>))
        ensures
            names.0@ == hashed_name_of(video@),
            names.1.deep_view() == hashed_names_of(texts_of(subtitles@)),
            final(self)@ == old(self)@.push(
                ServedFileView { name: hashed_name_of(video@), path: video@ },
            ) + hashed_entries_of(texts_of(subtitles@)),
    {
        let video_hash = sha256_hex(video);
        let ghost before = self.file_maps.deep_view();
        let first = ServedFile { name: video_hash.clone(), path: String::from_str(video) };
        self.file_maps.push(first);
        let ghost base = before.push(first.deep_view());
        assert(self.file_maps.deep_view() =~= base);
        let ghost entries = hashed_entries_of(texts_of(subtitles@));
        let ghost all = hashed_names_of(texts_of(subtitles@));
        let mut names: Vec<String> = Vec::new();
        let mut i: usize = 0;
        assert(all.take(0) =~= Seq::<Seq<char>>::empty());
        assert(entries.take(0) =~= Seq::<ServedFileView>::empty());
        while i < subtitles.len()
            invariant
                i <= subtitles.len(),
                entries == hashed_entries_of(texts_of(subtitles@)),
                all == hashed_names_of(texts_of(subtitles@)),
                names.deep_view() =~= all.take(i as int),
                self.file_maps.deep_view() =~= base + entries.take(i as int),
            decreases subtitles.len() - i,
        {
            let hash = sha256_hex(subtitles[i].as_str());
            let one = ServedFile { name: hash.clone(), path: subtitles[i].clone() };
            let ghost held = self.file_maps.deep_view();
            self.file_maps.push(one);
            assert(self.file_maps.deep_view() =~= held.push(one.deep_view()));
            push_text(&mut names, hash);
            assert(all.take(i + 1) =~= all.take(i as int).push(all[i as int]));
            assert(entries.take(i + 1) =~= entries.take(i as int).push(entries[i as int]));
            i += 1;
        }
        assert(all.take(i as int) =~= all);
        assert(entries.take(i as int) =~= entries);
        (video_hash, names)
    }

    /// The file that is served under a name.
    pub fn lookup(&self, name: &str) -> (path: Option<String>)
        ensures
            path.deep_view() == served_under(self@, name@),
    {
        let mut i: usize = self.file_maps.len();
        assert(self.file_maps.deep_view().take(i as int) =~= self.file_maps.deep_view());
        while i > 0
            invariant
                i <= self.file_maps.len(),
                served_under(self.file_maps.deep_view(), name@) == served_under(
                    self.file_maps.deep_view().take(i as int),
                    name@,
                ),
            decreases i,
        {
            let ghost upto = self.file_maps.deep_view().take(i as int);
            assert(upto.last() == self.file_maps[i - 1].deep_view());
            assert(upto.drop_last() =~= self.file_maps.deep_view().take(i - 1));
            if str_equal(self.file_maps[i - 1].name.as_str(), name) {
                return Some(self.file_maps[i - 1].path.clone());
            }
            i -= 1;
        }
        None
    }

    /// Answers a request for a name: the path of the file, or the message
    /// that says that there is none.
    pub fn handle_request(&self, name: &str) -> (r: Result<String, String>)
        ensures
            r is Ok <==> served_under(self@, name@) is Some,
            r is Ok ==> r->Ok_0@ == served_under(self@, name@)->0,
            r is Err ==> r->Err_0@ == "File not found: "@ + name@,
    {
        match self.lookup(name) {
            Some(path) => Ok(path),
            None => {
                let mut why = String::from_str("File not found: ");
                why.append(name);
                Err(why)
            },
        }
    }
}

} // verus!
