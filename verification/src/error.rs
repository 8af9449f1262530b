//! The errors that the library reports, and the text of each.

use vstd::prelude::*;
use crate::text::{concat, decimal, i64_to_string};

verus! {

/// Why a text is not a number of the wanted range.
#[derive(Debug, Clone, Copy, PartialEq, Eq, Structural)]
pub enum IntErrorKind {
    /// The text is empty.
    Empty,
    /// A character is not a digit, or only a sign is there.
    InvalidDigit,
    /// The number is above the largest value of the type.
    PosOverflow,
}

/// An error of the library.
#[derive(Debug)]
pub enum KisaraError {
    /// A search result page lacks what the selector in the text asks for.
    HtmlParseError(String),
    /// No release source of this name is registered.
    NoSuchTorrentAdapter(String),
    /// No episode has this id.
    NoSuchEpisode(i32),
    /// The download engine knows no torrent of this id, or not its files yet;
    /// an id that is no number is one that it cannot know.
    NoSuchTorrent(String),
    /// Reading or writing a file failed.
    StdIOError(String),
    /// A text that should be a number is none.
    ParseIntError(IntErrorKind),
    /// A path cannot be used.
    InvalidPath(String),
    /// A media tool ended with an error.
    CommandFailed(String),
    /// None of the torrent's files is a video.
    NoVideoFoundInTorrent(String),
    /// Any other failure, with its text.
    Any(String),
}

pub type KisaraResult<T> = Result<T, KisaraError>;

/// The mathematical value of an error: its variant and the characters of its
/// text.
pub enum KisaraErrorView {
    HtmlParseError(Seq<char>),
    NoSuchTorrentAdapter(Seq<char>),
    NoSuchEpisode(i32),
    NoSuchTorrent(Seq<char>),
    StdIOError(Seq<char>),
    ParseIntError(IntErrorKind),
    InvalidPath(Seq<char>),
    CommandFailed(Seq<char>),
    NoVideoFoundInTorrent(Seq<char>),
    Any(Seq<char>),
}

impl View for KisaraError {
    type V = KisaraErrorView;

    open spec fn view(&self) -> KisaraErrorView {
        match self {
            KisaraError::HtmlParseError(s) => KisaraErrorView::HtmlParseError(s@),
            KisaraError::NoSuchTorrentAdapter(s) => KisaraErrorView::NoSuchTorrentAdapter(s@),
            KisaraError::NoSuchEpisode(id) => KisaraErrorView::NoSuchEpisode(*id),
            KisaraError::NoSuchTorrent(s) => KisaraErrorView::NoSuchTorrent(s@),
            KisaraError::StdIOError(s) => KisaraErrorView::StdIOError(s@),
            KisaraError::ParseIntError(k) => KisaraErrorView::ParseIntError(*k),
            KisaraError::InvalidPath(s) => KisaraErrorView::InvalidPath(s@),
            KisaraError::CommandFailed(s) => KisaraErrorView::CommandFailed(s@),
            KisaraError::NoVideoFoundInTorrent(s) => KisaraErrorView::NoVideoFoundInTorrent(s@),
            KisaraError::Any(s) => KisaraErrorView::Any(s@),
        }
    }
}

impl Clone for KisaraError {
    fn clone(&self) -> (r: Self)
        ensures
            r@ == self@,
    {
        match self {
            KisaraError::HtmlParseError(s) => KisaraError::HtmlParseError(s.clone()),
            KisaraError::NoSuchTorrentAdapter(s) => KisaraError::NoSuchTorrentAdapter(s.clone()),
            KisaraError::NoSuchEpisode(id) => KisaraError::NoSuchEpisode(*id),
            KisaraError::NoSuchTorrent(s) => KisaraError::NoSuchTorrent(s.clone()),
            KisaraError::StdIOError(s) => KisaraError::StdIOError(s.clone()),
            KisaraError::ParseIntError(k) => KisaraError::ParseIntError(*k),
            KisaraError::InvalidPath(s) => KisaraError::InvalidPath(s.clone()),
            KisaraError::CommandFailed(s) => KisaraError::CommandFailed(s.clone()),
            KisaraError::NoVideoFoundInTorrent(s) => KisaraError::NoVideoFoundInTorrent(s.clone()),
            KisaraError::Any(s) => KisaraError::Any(s.clone()),
        }
    }
}

/// The text that says why a number could not be read.
pub open spec fn int_error_text(kind: IntErrorKind) -> Seq<char> {
    match kind {
        IntErrorKind::Empty => "cannot parse integer from empty string"@,
        IntErrorKind::InvalidDigit => "invalid digit found in string"@,
        IntErrorKind::PosOverflow => "number too large to fit in target type"@,
    }
}

/// The message of an error: what the variant means, then its own text.
pub open spec fn message_of(e: KisaraErrorView) -> Seq<char> {
    match e {
        KisaraErrorView::HtmlParseError(s) => "HTML parse error: "@ + s,
        KisaraErrorView::NoSuchTorrentAdapter(s) => "No such torrent adapter: "@ + s,
        KisaraErrorView::NoSuchEpisode(id) => "No such episode with ID: "@ + decimal(id as int),
        KisaraErrorView::NoSuchTorrent(s) => "No such episode with torrent ID: "@ + s,
        KisaraErrorView::StdIOError(s) => "StdIO error: "@ + s,
        KisaraErrorView::ParseIntError(k) => "Parse error: "@ + int_error_text(k),
        KisaraErrorView::InvalidPath(s) => "Invalid Path: "@ + s,
        KisaraErrorView::CommandFailed(s) => "Command failed: "@ + s,
        KisaraErrorView::NoVideoFoundInTorrent(s) => "No video found in torrent: "@ + s,
        KisaraErrorView::Any(s) => s,
    }
}

fn int_error_str(kind: IntErrorKind) -> (s: &'static str)
    ensures
        s@ == int_error_text(kind),
{
    match kind {
        IntErrorKind::Empty => "cannot parse integer from empty string",
        IntErrorKind::InvalidDigit => "invalid digit found in string",
        IntErrorKind::PosOverflow => "number too large to fit in target type",
    }
}

impl KisaraError {
    /// The message of this error.
    pub fn message(&self) -> (s: String)
        ensures
            s@ == message_of(self@),
    {
        match self {
            KisaraError::HtmlParseError(t) => concat("HTML parse error: ", t.as_str()),
            KisaraError::NoSuchTorrentAdapter(t) => concat(
                "No such torrent adapter: ",
                t.as_str(),
            ),
            KisaraError::NoSuchEpisode(id) => {
                let n = i64_to_string(*id as i64);
                concat("No such episode with ID: ", n.as_str())
            },
            KisaraError::NoSuchTorrent(t) => concat(
                "No such episode with torrent ID: ",
                t.as_str(),
            ),
            KisaraError::StdIOError(t) => concat("StdIO error: ", t.as_str()),
            KisaraError::ParseIntError(k) => concat("Parse error: ", int_error_str(*k)),
            KisaraError::InvalidPath(t) => concat("Invalid Path: ", t.as_str()),
            KisaraError::CommandFailed(t) => concat("Command failed: ", t.as_str()),
            KisaraError::NoVideoFoundInTorrent(t) => concat(
                "No video found in torrent: ",
                t.as_str(),
            ),
            KisaraError::Any(t) => t.clone(),
        }
    }
}

} // verus!
