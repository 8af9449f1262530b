//! What observers are told of a download.

use vstd::prelude::*;

verus! {

/// A notice to observers, which knows the name under which it is sent.
pub trait Event {
    /// The name under which the notice is sent.
    spec fn name_of(&self) -> Seq<char>;

    /// The name under which the notice is sent.
    fn name(&self) -> (name: &'static str)
        ensures
            name@ == self.name_of(),
    ;
}

/// The download of a torrent is complete.
#[derive(Debug)]
pub struct TorrentComplete {
    pub id: String,
}

impl TorrentComplete {
    pub fn new(id: String) -> (event: Self)
        ensures
            event.id == id,
    {
        Self { id }
    }
}

impl Event for TorrentComplete {
    open spec fn name_of(&self) -> Seq<char> {
        "torrent-complete"@
    }

    fn name(&self) -> (name: &'static str) {
        "torrent-complete"
    }
}

/// The files of a torrent are known.
#[derive(Debug)]
pub struct TorrentInit {
    pub id: String,
}

impl TorrentInit {
    pub fn new(id: String) -> (event: Self)
        ensures
            event.id == id,
    {
        Self { id }
    }
}

impl Event for TorrentInit {
    open spec fn name_of(&self) -> Seq<char> {
        "torrent-init"@
    }

    fn name(&self) -> (name: &'static str) {
        "torrent-init"
    }
}

} // verus!
