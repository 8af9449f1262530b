//! The source that finds nothing. It asks for no page and answers every
//! search with an empty list.

use vstd::prelude::*;
use crate::error::{KisaraErrorView, KisaraResult};
use crate::release::{TorrentInfo, TorrentInfoView};
use crate::torrent_adapters::{TorrentAdapter, TorrentAdapterFactory};

verus! {

/// The source that finds nothing.
#[derive(Debug)]
pub struct DummyAdapter;

impl TorrentAdapter for DummyAdapter {
    open spec fn asks(&self, page: u32, urls: Seq<Seq<char>>) -> bool {
        urls.len() == 0
    }

    open spec fn answers(
        &self,
        page: u32,
        responses: Seq<Option<Seq<char>>>,
        found: Result<Seq<TorrentInfoView>, KisaraErrorView>,
    ) -> bool {
        found == Ok::<Seq<TorrentInfoView>, KisaraErrorView>(Seq::empty())
    }

    fn requests(&self, page: u32) -> (urls: Vec<String>) {
        let urls: Vec<String> = Vec::new();
        assert(urls.deep_view() =~= Seq::empty());
        urls
    }

    fn search(&self, page: u32, responses: &Vec<Option<String>>) -> (found: KisaraResult<
        Vec<TorrentInfo>,
    >) {
        let list: Vec<TorrentInfo> = Vec::new();
        assert(list.deep_view() =~= Seq::empty());
        Ok(list)
    }
}

/// Makes the source that finds nothing.
#[derive(Debug, Clone, Copy)]
pub struct DummyAdapterFactory;

impl DummyAdapterFactory {
    pub fn new() -> (factory: Self) {
        Self {  }
    }

    /// The source, ready to search.
    pub fn create_adapter(&self) -> (adapter: DummyAdapter) {
        DummyAdapter
    }
}

impl TorrentAdapterFactory for DummyAdapterFactory {
    open spec fn name_of(&self) -> Seq<char> {
        "Dummy"@
    }

    open spec fn priority_of(&self) -> u32 {
        0
    }

    fn source_name(&self) -> (name: String) {
        String::from_str("Dummy")
    }

    fn priority(&self) -> (priority: u32) {
        0
    }
}

} // verus!
