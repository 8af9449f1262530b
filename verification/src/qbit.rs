//! The download session's decisions: how a torrent is named, which torrents
//! are watched, what observers are told when a torrent's files become known
//! and when its download is complete, and how its files are resolved.
//!
//! The download engine itself is the caller's. A torrent goes from added over
//! initialised to completed, and may be removed at any time; the engine says
//! when.

use vstd::prelude::*;
use crate::classify::{initial_classifier, paths_of, Classifier, ClassifierView, TorrentFileEntry};
use crate::error::{KisaraError, KisaraErrorView, KisaraResult};
use crate::events::{TorrentComplete, TorrentInit};
use crate::text::{
    decimal_digits, number_error_of, parse_unsigned, u64_to_string, unsigned_value,
};

verus! {

/// The text of a torrent's number: plain decimal.
pub open spec fn torrent_id_text_of(id: usize) -> Seq<char> {
    decimal_digits(id as nat)
}

/// Writes a torrent's number as the identifier that callers hold.
pub fn torrent_id_text(id: usize) -> (text: String)
    ensures
        text@ == torrent_id_text_of(id),
{
    u64_to_string(id as u64)
}

/// Reads a torrent's number out of an identifier. An identifier that is no
/// number of the machine's word size names no torrent that the engine can
/// know, and is refused as such.
pub fn parse_torrent_id(torrent_id: &str) -> (r: KisaraResult<usize>)
    ensures
        r is Ok <==> number_error_of(torrent_id@, usize::MAX as u64) is None,
        r is Ok ==> r->Ok_0 == unsigned_value(torrent_id@),
        r is Err ==> r->Err_0@ == KisaraErrorView::NoSuchTorrent(torrent_id@),
{
    match parse_unsigned(torrent_id, usize::MAX as u64) {
        Ok(n) => Ok(n as usize),
        Err(_) => Err(KisaraError::NoSuchTorrent(String::from_str(torrent_id))),
    }
}

/// What the engine knows of one torrent's progress.
#[derive(Debug, Clone, Copy, PartialEq, Eq, Structural)]
pub struct TorrentStatus {
    /// The torrent's number.
    pub id: usize,
    /// Whether the download is complete.
    pub finished: bool,
}

/// The numbers of the torrents that are not finished, in the list's order.
pub open spec fn unfinished_of(torrents: Seq<TorrentStatus>) -> Seq<usize>
    decreases torrents.len(),
{
    if torrents.len() == 0 {
        Seq::empty()
    } else {
        let before = unfinished_of(torrents.drop_last());
        if torrents.last().finished {
            before
        } else {
            before.push(torrents.last().id)
        }
    }
}

/// What a watcher waits for.
#[derive(Debug, Clone, Copy, PartialEq, Eq, Structural)]
pub enum WatchKind {
    /// Until the torrent's files are known.
    Initialized,
    /// Until the torrent's download is complete.
    Completed,
}

/// A watcher to start: it waits on one torrent and reports once.
#[derive(Debug, Clone, Copy, PartialEq, Eq, Structural)]
pub struct Watch {
    pub torrent: usize,
    pub kind: WatchKind,
}

/// What a watcher has to tell when its wait is over.
#[derive(Debug)]
pub enum Notice {
    /// Observers learn that the torrent's files are known.
    Init(TorrentInit),
    /// Observers learn that the download is complete.
    Complete(TorrentComplete),
    /// The user is shown a message.
    Message { title: String, body: String },
}

/// The mathematical value of a [`Notice`].
pub enum NoticeView {
    Init(Seq<char>),
    Complete(Seq<char>),
    Message { title: Seq<char>, body: Seq<char> },
}

impl DeepView for Notice {
    type V = NoticeView;

    open spec fn deep_view(&self) -> NoticeView {
        match self {
            Notice::Init(event) => NoticeView::Init(event.id@),
            Notice::Complete(event) => NoticeView::Complete(event.id@),
            Notice::Message { title, body } => NoticeView::Message { title: title@, body: body@ },
        }
    }
}

/// The name of a torrent in a message: empty where the torrent has none.
pub open spec fn shown_name_of(name: Option<Seq<char>>) -> Seq<char> {
    match name {
        Some(n) => n,
        None => Seq::empty(),
    }
}

/// What a watcher tells once its wait is over. A wait that failed tells
/// nothing, and neither does a session that no observer is attached to. A
/// torrent whose files are known is announced to the observers; a torrent
/// whose download is complete is announced to them and then to the user.
pub open spec fn notices_of(
    watch: Watch,
    name: Option<Seq<char>>,
    waited: bool,
    observed: bool,
) -> Seq<NoticeView> {
    if !waited || !observed {
        Seq::empty()
    } else {
        match watch.kind {
            WatchKind::Initialized => seq![NoticeView::Init(torrent_id_text_of(watch.torrent))],
            WatchKind::Completed => seq![
                NoticeView::Complete(torrent_id_text_of(watch.torrent)),
                NoticeView::Message {
                    title: "Download Complete"@,
                    body: "Torrent "@ + shown_name_of(name) + " has completed downloading"@,
                },
            ],
        }
    }
}

/// The decisions of the download session. The engine's session is the
/// caller's; this holds what the decisions depend on.
#[derive(Debug)]
pub struct QbitClient {
    download_folder: String,
    observed: bool,
}

/// The mathematical value of a [`QbitClient`].
pub struct QbitClientView {
    /// The folder below which the engine keeps the files.
    pub download_folder: Seq<char>,
    /// Whether observers are attached.
    pub observed: bool,
}

impl View for QbitClient {
    type V = QbitClientView;

    closed spec fn view(&self) -> QbitClientView {
        QbitClientView { download_folder: self.download_folder@, observed: self.observed }
    }
}

impl Clone for QbitClient {
    fn clone(&self) -> (r: Self)
        ensures
            r@ == self@,
    {
        QbitClient { download_folder: self.download_folder.clone(), observed: self.observed }
    }
}

impl QbitClient {
    /// The session over `download_folder`, with the watchers to start for the
    /// torrents that the engine has recovered: one that waits for completion
    /// for each torrent that is not finished, so that a download that was
    /// under way when the process ended is still announced. No observer is
    /// attached yet.
    pub fn new(download_folder: &str, recovered: &Vec<TorrentStatus>) -> (r: (Self, Vec<Watch>))
        ensures
            r.0@ == (QbitClientView { download_folder: download_folder@, observed: false }),
            r.1@.len() == unfinished_of(recovered@).len(),
            forall|i: int|
                0 <= i < r.1@.len() ==> #[trigger] r.1@[i] == (Watch {
                    torrent: unfinished_of(recovered@)[i],
                    kind: WatchKind::Completed,
                }),
    {
        let mut watches: Vec<Watch> = Vec::new();
        let mut i: usize = 0;
        assert(recovered@.take(0) =~= Seq::<TorrentStatus>::empty());
        while i < recovered.len()
            invariant
                i <= recovered.len(),
                watches@.len() == unfinished_of(recovered@.take(i as int)).len(),
                forall|k: int|
                    0 <= k < watches@.len() ==> #[trigger] watches@[k] == (Watch {
                        torrent: unfinished_of(recovered@.take(i as int))[k],
                        kind: WatchKind::Completed,
                    }),
            decreases recovered.len() - i,
        {
            let ghost upto = recovered@.take(i + 1);
            assert(upto.drop_last() =~= recovered@.take(i as int));
            assert(upto.last() == recovered@[i as int]);
            if !recovered[i].finished {
                watches.push(Watch { torrent: recovered[i].id, kind: WatchKind::Completed });
            }
            i += 1;
        }
        assert(recovered@.take(i as int) =~= recovered@);
        let client = QbitClient {
            download_folder: String::from_str(download_folder),
            observed: false,
        };
        (client, watches)
    }

    /// Attaches the observers: from now on watchers have someone to tell.
    pub fn set_app(&mut self)
        ensures
            final(self)@ == (QbitClientView { observed: true, ..old(self)@ }),
    {
        self.observed = true;
    }

    /// The watcher that waits until the files of a torrent are known.
    pub fn start_new_wait_init(&self, torrent: usize) -> (watch: Watch)
        ensures
            watch == (Watch { torrent, kind: WatchKind::Initialized }),
    {
        Watch { torrent, kind: WatchKind::Initialized }
    }

    /// The watcher that waits until the download of a torrent is complete.
    pub fn start_new_wait_complete(&self, torrent: usize) -> (watch: Watch)
        ensures
            watch == (Watch { torrent, kind: WatchKind::Completed }),
    {
        Watch { torrent, kind: WatchKind::Completed }
    }

    /// What follows when the engine has accepted a magnet link as the
    /// torrent `torrent`: the identifier that the caller gets, and the two
    /// watchers to start, the one for the files first.
    pub fn add_torrent(&self, torrent: usize) -> (r: (String, Vec<Watch>))
        ensures
            r.0@ == torrent_id_text_of(torrent),
            r.1@ == seq![
                Watch { torrent, kind: WatchKind::Initialized },
                Watch { torrent, kind: WatchKind::Completed },
            ],
    {
        let mut watches: Vec<Watch> = Vec::new();
        watches.push(self.start_new_wait_init(torrent));
        watches.push(self.start_new_wait_complete(torrent));
        assert(watches@ =~= seq![
            Watch { torrent, kind: WatchKind::Initialized },
            Watch { torrent, kind: WatchKind::Completed },
        ]);
        (torrent_id_text(torrent), watches)
    }

    /// What a watcher tells when its wait is over. `waited` says whether the
    /// wait ended well, `name` is the torrent's name if it has one.
    pub fn watch_ended(&self, watch: Watch, name: Option<String>, waited: bool) -> (notices: Vec<
        Notice,
    >)
        ensures
            notices.deep_view() == notices_of(watch, name.deep_view(), waited, self@.observed),
    {
        let mut notices: Vec<Notice> = Vec::new();
        if !waited || !self.observed {
            assert(notices.deep_view() =~= Seq::empty());
            return notices;
        }
        match watch.kind {
            WatchKind::Initialized => {
                notices.push(Notice::Init(TorrentInit::new(torrent_id_text(watch.torrent))));
                assert(notices.deep_view() =~= notices_of(
                    watch,
                    name.deep_view(),
                    waited,
                    self@.observed,
                ));
            },
            WatchKind::Completed => {
                notices.push(
                    Notice::Complete(TorrentComplete::new(torrent_id_text(watch.torrent))),
                );
                let mut body = String::from_str("Torrent ");
                match &name {
                    Some(n) => body.append(n.as_str()),
                    None => {},
                }
                body.append(" has completed downloading");
                let title = String::from_str("Download Complete");
                assert(body@ =~= "Torrent "@ + shown_name_of(name.deep_view())
                    + " has completed downloading"@);
                notices.push(Notice::Message { title, body });
                assert(notices.deep_view() =~= notices_of(
                    watch,
                    name.deep_view(),
                    waited,
                    self@.observed,
                ));
            },
        }
        notices
    }

    /// How many of the torrents are still downloading, as a 32-bit count.
    pub fn get_downloading_torrents(&self, torrents: &Vec<TorrentStatus>) -> (count: u32)
        ensures
            count == unfinished_of(torrents@).len() % 0x1_0000_0000,
    {
        let mut count: usize = 0;
        let mut i: usize = 0;
        assert(torrents@.take(0) =~= Seq::<TorrentStatus>::empty());
        while i < torrents.len()
            invariant
                i <= torrents.len(),
                count == unfinished_of(torrents@.take(i as int)).len(),
                count <= i,
            decreases torrents.len() - i,
        {
            let ghost upto = torrents@.take(i + 1);
            assert(upto.drop_last() =~= torrents@.take(i as int));
            assert(upto.last() == torrents@[i as int]);
            if !torrents[i].finished {
                count += 1;
            }
            i += 1;
        }
        assert(torrents@.take(i as int) =~= torrents@);
        ((count as u64) % 0x1_0000_0000u64) as u32
    }

    /// Begins the resolution of a torrent's playable files. `files` is what
    /// the engine lists for the torrent, or `None` where it does not know
    /// the torrent or has not got its list of files yet: then there is
    /// nothing to resolve.
    pub fn get_files(&self, torrent: usize, files: Option<Vec<TorrentFileEntry>>) -> (r:
        KisaraResult<Classifier>)
        ensures
            r is Ok <==> files is Some,
            r is Ok ==> r->Ok_0@ == initial_classifier(
                torrent_id_text_of(torrent),
                paths_of(self@.download_folder, files->0@),
            ),
            r is Err ==> r->Err_0@ == KisaraErrorView::NoSuchTorrent(torrent_id_text_of(torrent)),
    {
        let id = torrent_id_text(torrent);
        match files {
            Some(list) => Ok(Classifier::new(id.as_str(), self.download_folder.as_str(), &list)),
            None => Err(KisaraError::NoSuchTorrent(id)),
        }
    }
}

/// Whether an episode's recorded torrent can be played from: the identifier
/// that is recorded, if the engine still knows it.
pub open spec fn present_of(recorded: Option<Seq<char>>, known: bool) -> Option<Seq<char>> {
    match recorded {
        Some(id) => if known {
            Some(id)
        } else {
            None
        },
        None => None,
    }
}

/// Decides whether an episode's recorded torrent is still present. `known`
/// says whether the engine knows the recorded torrent. The first part of the
/// answer is the identifier to play from, if there is one; the second says
/// whether the record is stale and is to be forgotten.
pub fn torrent_is_present(recorded: Option<String>, known: bool) -> (r: (Option<String>, bool))
    ensures
        r.0.deep_view() == present_of(recorded.deep_view(), known),
        r.1 == (recorded is Some && !known),
{
    match recorded {
        Some(id) => if known {
            (Some(id), false)
        } else {
            (None, true)
        },
        None => (None, false),
    }
}

} // verus!
