//! Release sources and their registry. A source turns an episode into
//! requests for pages and the pages that came back into releases; the
//! registry asks every source in the order of their priorities and reports
//! what each found under the source's name.

use vstd::prelude::*;
use vstd::seq_lib::{to_multiset_build, to_multiset_insert};
use crate::data::{Anime, Episode};
use crate::dummy_adapter::DummyAdapterFactory;
use crate::error::{KisaraError, KisaraErrorView, KisaraResult};
use crate::nyaa_adapter::{
    found_on_pages, is_keyword_list, search_urls_of, NyaaAdapterFactory,
};
use crate::release::{is_ranking_of, without_repeats, TorrentInfo, TorrentInfoView};
use crate::text::str_equal;

verus! {

/// The view of a result of releases.
pub open spec fn torrents_result_view(r: KisaraResult<Vec<TorrentInfo>>) -> Result<
    Seq<TorrentInfoView>,
    KisaraErrorView,
> {
    match r {
        Ok(list) => Ok(list.deep_view()),
        Err(e) => Err(e@),
    }
}

/// A release source. A search has two halves with the network between them:
/// the source names the pages it wants, and it reads the releases out of the
/// pages that came back.
pub trait TorrentAdapter {
    /// Whether `urls` are the pages that the source wants for result page
    /// `page`.
    spec fn asks(&self, page: u32, urls: Seq<Seq<char>>) -> bool;

    /// Whether `found` is what the source makes of the pages that came back.
    /// `None` among the responses stands for a request that failed.
    spec fn answers(
        &self,
        page: u32,
        responses: Seq<Option<Seq<char>>>,
        found: Result<Seq<TorrentInfoView>, KisaraErrorView>,
    ) -> bool;

    /// The addresses of the pages to fetch.
    fn requests(&self, page: u32) -> (urls: Vec<String>)
        ensures
            self.asks(page, urls.deep_view()),
    ;

    /// The releases on the pages that came back.
    fn search(&self, page: u32, responses: &Vec<Option<String>>) -> (found: KisaraResult<
        Vec<TorrentInfo>,
    >)
        ensures
            self.answers(page, responses.deep_view(), torrents_result_view(found)),
    ;
}

/// What makes a release source: it knows the source's name and its place in
/// the order in which sources are asked.
pub trait TorrentAdapterFactory {
    /// The name under which the source's releases are reported.
    spec fn name_of(&self) -> Seq<char>;

    /// The source's priority: sources with lower numbers are asked first.
    spec fn priority_of(&self) -> u32;

    /// The name under which the source's releases are reported.
    fn source_name(&self) -> (name: String)
        ensures
            name@ == self.name_of(),
    ;

    /// The source's priority.
    fn priority(&self) -> (priority: u32)
        ensures
            priority == self.priority_of(),
    ;
}

/// A registered source: one of the sources that the library has.
#[derive(Debug, Clone, Copy)]
pub enum AdapterFactory {
    Dummy(DummyAdapterFactory),
    Nyaa(NyaaAdapterFactory),
}

impl TorrentAdapterFactory for AdapterFactory {
    open spec fn name_of(&self) -> Seq<char> {
        match self {
            AdapterFactory::Dummy(f) => f.name_of(),
            AdapterFactory::Nyaa(f) => f.name_of(),
        }
    }

    open spec fn priority_of(&self) -> u32 {
        match self {
            AdapterFactory::Dummy(f) => f.priority_of(),
            AdapterFactory::Nyaa(f) => f.priority_of(),
        }
    }

    fn source_name(&self) -> (name: String) {
        match self {
            AdapterFactory::Dummy(f) => f.source_name(),
            AdapterFactory::Nyaa(f) => f.source_name(),
        }
    }

    fn priority(&self) -> (priority: u32) {
        match self {
            AdapterFactory::Dummy(f) => f.priority(),
            AdapterFactory::Nyaa(f) => f.priority(),
        }
    }
}

/// Whether no two of the sources have the same name.
pub open spec fn distinct_names(sources: Seq<AdapterFactory>) -> bool {
    forall|i: int, j: int|
        0 <= i < j < sources.len() ==> (#[trigger] sources[i]).name_of()
            != (#[trigger] sources[j]).name_of()
}

/// Whether the sources stand in the order of their priorities, the lowest
/// number first.
pub open spec fn ascending_priority(sources: Seq<AdapterFactory>) -> bool {
    forall|i: int, j: int|
        0 <= i < j < sources.len() ==> (#[trigger] sources[i]).priority_of()
            <= (#[trigger] sources[j]).priority_of()
}

/// Whether `order` holds the sources of `sources`, each once, in the order of
/// their priorities.
pub open spec fn is_search_order(order: Seq<AdapterFactory>, sources: Seq<AdapterFactory>) -> bool {
    ascending_priority(order) && order.to_multiset() == sources.to_multiset()
}

/// Whether one of the sources has the given name.
pub open spec fn has_source(sources: Seq<AdapterFactory>, name: Seq<char>) -> bool {
    exists|i: int| 0 <= i < sources.len() && (#[trigger] sources[i]).name_of() == name
}

/// The release sources that are asked, each under its name.
pub struct TorrentAdapterRegistry {
    factories: Vec<AdapterFactory>,
}

impl View for TorrentAdapterRegistry {
    type V = Seq<AdapterFactory>;

    closed spec fn view(&self) -> Seq<AdapterFactory> {
        self.factories@
    }
}

impl TorrentAdapterRegistry {
    #[verifier::type_invariant]
    spec fn names_are_distinct(self) -> bool {
        distinct_names(self.factories@)
    }

    /// The registry with the library's sources: the one that finds nothing
    /// and Nyaa.
    pub fn new() -> (registry: Self)
        ensures
            registry@ == seq![
                AdapterFactory::Dummy(DummyAdapterFactory),
                AdapterFactory::Nyaa(NyaaAdapterFactory),
            ],
            distinct_names(registry@),
    {
        let empty = TorrentAdapterRegistry { factories: Vec::new() };
        let one = empty.register_adapter(AdapterFactory::Dummy(DummyAdapterFactory::new()));
        let two = one.register_adapter(AdapterFactory::Nyaa(NyaaAdapterFactory::new()));
        proof {
            reveal_strlit("Dummy");
            reveal_strlit("Nyaa");
            use_type_invariant(&two);
            assert("Dummy"@[0] != "Nyaa"@[0]);
            assert(!has_source(one@, "Nyaa"@)) by {
                assert(one@ =~= seq![AdapterFactory::Dummy(DummyAdapterFactory)]);
            }
        }
        two
    }

    /// Puts a source into the registry: in the place of the source of the
    /// same name where there is one, behind all others where there is none.
    pub fn register_adapter(self, factory: AdapterFactory) -> (registry: Self)
        ensures
            distinct_names(registry@),
            has_source(self@, factory.name_of()) ==> registry@.len() == self@.len() && forall|
                i: int,
            |
                0 <= i < self@.len() ==> #[trigger] registry@[i] == (if self@[i].name_of()
                    == factory.name_of() {
                    factory
                } else {
                    self@[i]
                }),
            !has_source(self@, factory.name_of()) ==> registry@ == self@.push(factory),
    {
        proof {
            use_type_invariant(&self);
        }
        let name = factory.source_name();
        let mut factories = self.factories;
        let ghost before = factories@;
        let mut i: usize = 0;
        while i < factories.len()
            invariant
                i <= factories.len(),
                factories@ == before,
                before == self@,
                name@ == factory.name_of(),
                distinct_names(before),
                forall|k: int| 0 <= k < i ==> (#[trigger] before[k]).name_of() != name@,
            decreases factories.len() - i,
        {
            let other = factories[i].source_name();
            if str_equal(other.as_str(), name.as_str()) {
                factories.set(i, factory);
                assert forall|a: int, b: int| 0 <= a < b < factories@.len() implies (
                #[trigger] factories@[a]).name_of() != (#[trigger] factories@[b]).name_of() by {
                    assert(before[a].name_of() != before[b].name_of());
                }
                assert(has_source(before, factory.name_of()));
                assert forall|k: int| 0 <= k < before.len() implies #[trigger] factories@[k] == (
                if before[k].name_of() == factory.name_of() {
                    factory
                } else {
                    before[k]
                }) by {
                    if k != i {
                        if k < i {
                            assert(before[k].name_of() != before[i as int].name_of());
                        } else {
                            assert(before[i as int].name_of() != before[k].name_of());
                        }
                    }
                }
                return TorrentAdapterRegistry { factories };
            }
            i += 1;
        }
        assert(!has_source(before, factory.name_of()));
        factories.push(factory);
        assert forall|a: int, b: int| 0 <= a < b < factories@.len() implies (
        #[trigger] factories@[a]).name_of() != (#[trigger] factories@[b]).name_of() by {
            if b < before.len() {
                assert(before[a].name_of() != before[b].name_of());
            } else {
                assert(factories@[a] == before[a]);
            }
        }
        TorrentAdapterRegistry { factories }
    }

    /// The sources in the order in which they are asked: by their
    /// priorities, the lowest number first.
    pub fn search_order(&self) -> (order: Vec<AdapterFactory>)
        ensures
            is_search_order(order@, self@),
    {
        let mut order: Vec<AdapterFactory> = Vec::new();
        let mut i: usize = 0;
        assert(self.factories@.take(0) =~= Seq::<AdapterFactory>::empty());
        while i < self.factories.len()
            invariant
                i <= self.factories.len(),
                ascending_priority(order@),
                order@.to_multiset() == self.factories@.take(i as int).to_multiset(),
            decreases self.factories.len() - i,
        {
            let one = self.factories[i];
            let p = one.priority();
            let mut at: usize = 0;
            while at < order.len() && order[at].priority() <= p
                invariant
                    at <= order.len(),
                    forall|k: int| 0 <= k < at ==> (#[trigger] order@[k]).priority_of() <= p,
                decreases order.len() - at,
            {
                at += 1;
            }
            let ghost before = order@;
            order.insert(at, one);
            assert forall|a: int, b: int| 0 <= a < b < order@.len() implies (
            #[trigger] order@[a]).priority_of() <= (#[trigger] order@[b]).priority_of() by {
                if b == at {
                    assert(order@[a] == before[a]);
                } else if a == at {
                    assert(order@[b] == before[b - 1]);
                    assert(before[at as int].priority_of() <= before[b - 1].priority_of() || b - 1
                        == at);
                } else if b < at {
                    assert(order@[a] == before[a] && order@[b] == before[b]);
                } else if a < at {
                    assert(order@[a] == before[a] && order@[b] == before[b - 1]);
                } else {
                    assert(order@[a] == before[a - 1] && order@[b] == before[b - 1]);
                }
            }
            let ghost seen = self.factories@.take(i as int);
            assert(self.factories@.take(i + 1) =~= seen.push(one));
            proof {
                to_multiset_insert(before, at as int, one);
                to_multiset_build(seen, one);
            }
            i += 1;
        }
        assert(self.factories@.take(i as int) =~= self.factories@);
        order
    }
}

/// What one source found.
#[derive(Debug)]
pub struct SourceResult {
    /// The source's name.
    pub source: String,
    /// The releases, the most seeded first.
    pub torrents: Vec<TorrentInfo>,
}

/// The mathematical value of a [`SourceResult`].
pub struct SourceResultView {
    pub source: Seq<char>,
    pub torrents: Seq<TorrentInfoView>,
}

impl DeepView for SourceResult {
    type V = SourceResultView;

    open spec fn deep_view(&self) -> SourceResultView {
        SourceResultView { source: self.source@, torrents: self.torrents.deep_view() }
    }
}

/// What the caller reports to a [`SearchRun`].
#[derive(Debug)]
pub enum SearchEvent {
    /// The search begins.
    Started,
    /// The pages asked for, in the order of the request: what came back, or
    /// `None` for a request that failed.
    Responses(Vec<Option<String>>),
}

/// The mathematical value of a [`SearchEvent`].
pub enum SearchEventView {
    Started,
    Responses(Seq<Option<Seq<char>>>),
}

impl View for SearchEvent {
    type V = SearchEventView;

    open spec fn view(&self) -> SearchEventView {
        match self {
            SearchEvent::Started => SearchEventView::Started,
            SearchEvent::Responses(pages) => SearchEventView::Responses(pages.deep_view()),
        }
    }
}

/// What a [`SearchRun`] asks the caller to do next.
#[derive(Debug)]
pub enum SearchAction {
    /// Fetch these pages for the source, all at once, and report them.
    Fetch { source: String, urls: Vec<String> },
    /// Nothing more: what each source found, or the error of the source
    /// that failed.
    Finished(KisaraResult<Vec<SourceResult>>),
}

/// The mathematical value of a [`SearchAction`].
pub enum SearchActionView {
    Fetch { source: Seq<char>, urls: Seq<Seq<char>> },
    Finished(Result<Seq<SourceResultView>, KisaraErrorView>),
}

impl View for SearchAction {
    type V = SearchActionView;

    open spec fn view(&self) -> SearchActionView {
        match self {
            SearchAction::Fetch { source, urls } => SearchActionView::Fetch {
                source: source@,
                urls: urls.deep_view(),
            },
            SearchAction::Finished(Ok(found)) => SearchActionView::Finished(Ok(found.deep_view())),
            SearchAction::Finished(Err(e)) => SearchActionView::Finished(Err(e@)),
        }
    }
}

/// How far a [`SearchRun`] has come.
#[derive(Debug, Clone, Copy, PartialEq, Eq, Structural)]
pub enum SearchPhase {
    /// Nothing was asked yet.
    Created,
    /// The pages of the source of this number were asked for.
    Asked(usize),
    /// The search is over.
    Done,
}

/// The mathematical value of a [`SearchRun`].
pub struct SearchRunView {
    /// The sources, in the order in which they are asked.
    pub order: Seq<AdapterFactory>,
    /// The episode that is searched for.
    pub ep: Episode,
    /// The anime of the episode.
    pub anime: Anime,
    /// The result page that is searched.
    pub page: u32,
    /// How far the search has come.
    pub phase: SearchPhase,
    /// What the sources found so far.
    pub results: Seq<SourceResultView>,
}

/// Whether `urls` are the pages that a source wants for an episode.
pub open spec fn asks_of(
    source: AdapterFactory,
    ep: Episode,
    anime: Anime,
    urls: Seq<Seq<char>>,
) -> bool {
    match source {
        AdapterFactory::Dummy(_) => urls.len() == 0,
        AdapterFactory::Nyaa(_) => exists|keywords: Seq<Seq<char>>| #[trigger]
            is_keyword_list(ep, anime, keywords) && urls == search_urls_of(keywords),
    }
}

/// Whether `found` is what a source makes of the pages that came back.
pub open spec fn answers_of(
    source: AdapterFactory,
    responses: Seq<Option<Seq<char>>>,
    found: Result<Seq<TorrentInfoView>, KisaraErrorView>,
) -> bool {
    match source {
        AdapterFactory::Dummy(_) => found == Ok::<Seq<TorrentInfoView>, KisaraErrorView>(
            Seq::empty(),
        ),
        AdapterFactory::Nyaa(_) => found is Ok && is_ranking_of(
            found->Ok_0,
            without_repeats(found_on_pages(responses)),
        ),
    }
}

/// The results with what one source found: a source that found nothing is
/// left out.
pub open spec fn with_found(
    results: Seq<SourceResultView>,
    source: AdapterFactory,
    found: Seq<TorrentInfoView>,
) -> Seq<SourceResultView> {
    if found.len() == 0 {
        results
    } else {
        results.push(SourceResultView { source: source.name_of(), torrents: found })
    }
}

/// Whether `next` and `action` are what follows once the sources up to
/// number `i` have answered and `results` is what they found: the pages of
/// the next source are asked for, or the search ends with the results.
pub open spec fn asks_next(
    results: Seq<SourceResultView>,
    i: int,
    next: SearchRunView,
    action: SearchActionView,
) -> bool {
    &&& next.results == results
    &&& if i < next.order.len() {
        &&& next.phase == SearchPhase::Asked(i as usize)
        &&& action matches SearchActionView::Fetch { source, urls }
        &&& source == next.order[i].name_of()
        &&& asks_of(next.order[i], next.ep, next.anime, urls)
    } else {
        &&& next.phase == SearchPhase::Done
        &&& action == SearchActionView::Finished(Ok(results))
    }
}

/// Whether `next` and `action` are what follows when the source of number
/// `i` has made `found` of its pages: its releases are reported under its
/// name, unless there are none, and the next source is asked; its error ends
/// the search.
pub open spec fn follows_answer(
    run: SearchRunView,
    i: int,
    found: Result<Seq<TorrentInfoView>, KisaraErrorView>,
    next: SearchRunView,
    action: SearchActionView,
) -> bool {
    match found {
        Ok(list) => asks_next(with_found(run.results, run.order[i], list), i + 1, next, action),
        Err(e) => next.phase == SearchPhase::Done && next.results == run.results && action
            == SearchActionView::Finished(Err(e)),
    }
}

/// The search's rule: whether `next` and `action` follow from `run` and
/// `event`.
///
/// The sources are asked one after the other, in their order. What a source
/// makes of its pages is reported under its name, unless it is nothing; an
/// error of a source ends the search. An event that does not answer the
/// last action ends it too.
pub open spec fn search_step(
    run: SearchRunView,
    event: SearchEventView,
    next: SearchRunView,
    action: SearchActionView,
) -> bool {
    let unexpected = next.phase == SearchPhase::Done && next.results == run.results && action
        == SearchActionView::Finished(Err(KisaraErrorView::Any("unexpected event"@)));
    &&& next.order == run.order
    &&& next.ep == run.ep
    &&& next.anime == run.anime
    &&& next.page == run.page
    &&& match run.phase {
        SearchPhase::Created => if event is Started {
            asks_next(run.results, 0, next, action)
        } else {
            unexpected
        },
        SearchPhase::Asked(i) => match event {
            SearchEventView::Responses(pages) => exists|
                found: Result<Seq<TorrentInfoView>, KisaraErrorView>,
            |
                answers_of(run.order[i as int], pages, found) && #[trigger] follows_answer(
                    run,
                    i as int,
                    found,
                    next,
                    action,
                ),
            _ => unexpected,
        },
        SearchPhase::Done => unexpected,
    }
}

/// Whether the source that the search is waiting for exists.
pub open spec fn source_in_bounds(run: SearchRunView) -> bool {
    match run.phase {
        SearchPhase::Asked(i) => i < run.order.len(),
        _ => true,
    }
}

/// One search for an episode over the registered sources, step by step.
pub struct SearchRun<'a> {
    order: Vec<AdapterFactory>,
    ep: &'a Episode,
    anime: &'a Anime,
    page: u32,
    phase: SearchPhase,
    results: Vec<SourceResult>,
}

impl<'a> View for SearchRun<'a> {
    type V = SearchRunView;

    closed spec fn view(&self) -> SearchRunView {
        SearchRunView {
            order: self.order@,
            ep: *self.ep,
            anime: *self.anime,
            page: self.page,
            phase: self.phase,
            results: self.results.deep_view(),
        }
    }
}

fn clone_results(results: &Vec<SourceResult>) -> (copy: Vec<SourceResult>)
    ensures
        copy.deep_view() == results.deep_view(),
{
    let mut copy: Vec<SourceResult> = Vec::new();
    let mut i: usize = 0;
    while i < results.len()
        invariant
            i <= results.len(),
            copy.deep_view() =~= results.deep_view().take(i as int),
        decreases results.len() - i,
    {
        let torrents = results[i].torrents.clone();
        assert(torrents.deep_view() =~= results[i as int].torrents.deep_view()) by {
            assert(torrents.len() == results[i as int].torrents.len());
            assert forall|k: int| 0 <= k < torrents.len() implies torrents.deep_view()[k]
                == results[i as int].torrents.deep_view()[k] by {
                assert(cloned(results[i as int].torrents[k], torrents[k]));
            }
        }
        let one = SourceResult { source: results[i].source.clone(), torrents };
        let ghost before = copy.deep_view();
        copy.push(one);
        assert(copy.deep_view() =~= before.push(one.deep_view()));
        assert(results.deep_view().take(i + 1) =~= results.deep_view().take(i as int).push(
            results[i as int].deep_view(),
        ));
        i += 1;
    }
    assert(results.deep_view().take(i as int) =~= results.deep_view());
    copy
}

impl<'a> SearchRun<'a> {
    #[verifier::type_invariant]
    spec fn in_bounds(self) -> bool {
        source_in_bounds(self@)
    }

    /// Whether the search is over.
    pub fn is_done(&self) -> (b: bool)
        ensures
            b == (self@.phase == SearchPhase::Done),
    {
        self.phase == SearchPhase::Done
    }

    fn unexpected(
        order: Vec<AdapterFactory>,
        ep: &'a Episode,
        anime: &'a Anime,
        page: u32,
        results: Vec<SourceResult>,
    ) -> (r: (Self, SearchAction))
        ensures
            r.0@ == (SearchRunView {
                order: order@,
                ep: *ep,
                anime: *anime,
                page,
                phase: SearchPhase::Done,
                results: results.deep_view(),
            }),
            r.1@ == SearchActionView::Finished(Err(KisaraErrorView::Any("unexpected event"@))),
    {
        let run = SearchRun { order, ep, anime, page, phase: SearchPhase::Done, results };
        (run, SearchAction::Finished(Err(KisaraError::Any(String::from_str("unexpected event")))))
    }

    fn requests_of(source: &AdapterFactory, ep: &'a Episode, anime: &'a Anime, page: u32) -> (urls:
        Vec<String>)
        ensures
            asks_of(*source, *ep, *anime, urls.deep_view()),
    {
        match source {
            AdapterFactory::Dummy(factory) => factory.create_adapter().requests(page),
            AdapterFactory::Nyaa(factory) => factory.create_adapter(ep, anime).requests(page),
        }
    }

    fn results_of(
        source: &AdapterFactory,
        ep: &'a Episode,
        anime: &'a Anime,
        page: u32,
        responses: &Vec<Option<String>>,
    ) -> (found: KisaraResult<Vec<TorrentInfo>>)
        ensures
            answers_of(*source, responses.deep_view(), torrents_result_view(found)),
    {
        match source {
            AdapterFactory::Dummy(factory) => factory.create_adapter().search(page, responses),
            AdapterFactory::Nyaa(factory) => factory.create_adapter(ep, anime).search(
                page,
                responses,
            ),
        }
    }

    fn ask(
        order: Vec<AdapterFactory>,
        ep: &'a Episode,
        anime: &'a Anime,
        page: u32,
        results: Vec<SourceResult>,
        i: usize,
    ) -> (r: (Self, SearchAction))
        requires
            i <= order.len(),
        ensures
            r.0@.order == order@,
            r.0@.ep == *ep,
            r.0@.anime == *anime,
            r.0@.page == page,
            asks_next(results.deep_view(), i as int, r.0@, r.1@),
    {
        if i < order.len() {
            let source = order[i].source_name();
            let urls = Self::requests_of(&order[i], ep, anime, page);
            let run = SearchRun { order, ep, anime, page, phase: SearchPhase::Asked(i), results };
            (run, SearchAction::Fetch { source, urls })
        } else {
            let found = clone_results(&results);
            let run = SearchRun { order, ep, anime, page, phase: SearchPhase::Done, results };
            (run, SearchAction::Finished(Ok(found)))
        }
    }

    /// Takes what the caller reports and names the next action, as
    /// [`search_step`] rules.
    pub fn advance(self, event: SearchEvent) -> (r: (SearchRun<'a>, SearchAction))
        ensures
            search_step(self@, event@, r.0@, r.1@),
    {
        proof {
            use_type_invariant(&self);
        }
        let ghost old_run = self@;
        let SearchRun { order, ep, anime, page, phase, results } = self;
        let mut results = results;
        match phase {
            SearchPhase::Created => match event {
                SearchEvent::Started => {
                    Self::ask(order, ep, anime, page, results, 0)
                },
                _ => {
                    Self::unexpected(order, ep, anime, page, results)
                },
            },
            SearchPhase::Asked(i) => {
                assert(i < order.len());
                match event {
                    SearchEvent::Responses(pages) => {
                        let found = Self::results_of(&order[i], ep, anime, page, &pages);
                        let ghost seen = torrents_result_view(found);
                        let ghost source = order@[i as int];
                        let ghost before = results.deep_view();
                        assert(answers_of(source, pages.deep_view(), seen));
                        match found {
                            Ok(list) => {
                                if list.len() > 0 {
                                    let one = SourceResult {
                                        source: order[i].source_name(),
                                        torrents: list,
                                    };
                                    results.push(one);
                                    assert(results.deep_view() =~= before.push(one.deep_view()));
                                }
                                assert(results.deep_view() == with_found(
                                    before,
                                    source,
                                    seen->Ok_0,
                                ));
                                let r = Self::ask(order, ep, anime, page, results, i + 1);
                                assert(follows_answer(old_run, i as int, seen, r.0@, r.1@));
                                r
                            },
                            Err(e) => {
                                let run = SearchRun {
                                    order,
                                    ep,
                                    anime,
                                    page,
                                    phase: SearchPhase::Done,
                                    results,
                                };
                                let r = (run, SearchAction::Finished(Err(e)));
                                assert(follows_answer(old_run, i as int, seen, r.0@, r.1@));
                                r
                            },
                        }
                    },
                    _ => {
                        Self::unexpected(order, ep, anime, page, results)
                    },
                }
            },
            SearchPhase::Done => {
                Self::unexpected(order, ep, anime, page, results)
            },
        }
    }
}

impl TorrentAdapterRegistry {
    /// Begins the search for an episode over all sources, in the order of
    /// their priorities. Nothing is asked yet: the search waits for
    /// `Started`.
    pub fn init_search<'a>(&self, ep: &'a Episode, anime: &'a Anime) -> (run: SearchRun<'a>)
        ensures
            is_search_order(run@.order, self@),
            run@.ep == *ep,
            run@.anime == *anime,
            run@.page == 1,
            run@.phase == SearchPhase::Created,
            run@.results.len() == 0,
    {
        let order = self.search_order();
        let results: Vec<SourceResult> = Vec::new();
        assert(results.deep_view() =~= Seq::empty());
        SearchRun { order, ep, anime, page: 1, phase: SearchPhase::Created, results }
    }

    /// Begins the search for an episode with the one source of the given
    /// name, on the given result page. There is no such search where no
    /// source has that name.
    pub fn search<'a>(&self, source: &str, ep: &'a Episode, anime: &'a Anime, page: u32) -> (r:
        KisaraResult<SearchRun<'a>>)
        ensures
            r is Ok <==> has_source(self@, source@),
            r is Ok ==> {
                &&& r->Ok_0@.order.len() == 1
                &&& self@.contains(r->Ok_0@.order[0])
                &&& r->Ok_0@.order[0].name_of() == source@
                &&& r->Ok_0@.ep == *ep
                &&& r->Ok_0@.anime == *anime
                &&& r->Ok_0@.page == page
                &&& r->Ok_0@.phase == SearchPhase::Created
                &&& r->Ok_0@.results.len() == 0
            },
            r is Err ==> r->Err_0@ == KisaraErrorView::NoSuchTorrentAdapter(source@),
    {
        let mut i: usize = 0;
        while i < self.factories.len()
            invariant
                i <= self.factories.len(),
                forall|k: int| 0 <= k < i ==> (#[trigger] self.factories@[k]).name_of() != source@,
            decreases self.factories.len() - i,
        {
            let name = self.factories[i].source_name();
            if str_equal(name.as_str(), source) {
                let mut order: Vec<AdapterFactory> = Vec::new();
                order.push(self.factories[i]);
                let results: Vec<SourceResult> = Vec::new();
                assert(results.deep_view() =~= Seq::empty());
                assert(self.factories@[i as int].name_of() == source@);
                return Ok(
                    SearchRun { order, ep, anime, page, phase: SearchPhase::Created, results },
                );
            }
            i += 1;
        }
        Err(KisaraError::NoSuchTorrentAdapter(String::from_str(source)))
    }
}

/// Whether `results` can be what the first `n` sources of `order` reported:
/// each entry bears the name of one of them and holds a release, and the
/// entries stand in the sources' order, at most one for each source.
pub open spec fn reported_by(
    results: Seq<SourceResultView>,
    order: Seq<AdapterFactory>,
    n: int,
) -> bool
    decreases n,
{
    if n <= 0 {
        results.len() == 0
    } else {
        reported_by(results, order, n - 1) || (results.len() > 0 && results.last().source
            == order[n - 1].name_of() && results.last().torrents.len() > 0 && reported_by(
            results.drop_last(),
            order,
            n - 1,
        ))
    }
}

/// How many sources have answered.
pub open spec fn answered_of(run: SearchRunView) -> int {
    match run.phase {
        SearchPhase::Created => 0,
        SearchPhase::Asked(i) => i as int,
        SearchPhase::Done => run.order.len() as int,
    }
}

/// Whether a search's results are what the sources that have answered can
/// have reported.
pub open spec fn well_formed(run: SearchRunView) -> bool {
    &&& run.order.len() <= usize::MAX
    &&& source_in_bounds(run)
    &&& reported_by(run.results, run.order, answered_of(run))
}

proof fn lemma_reported_by_more(
    results: Seq<SourceResultView>,
    order: Seq<AdapterFactory>,
    n: int,
    m: int,
)
    requires
        reported_by(results, order, n),
        n <= m,
        0 <= m,
    ensures
        reported_by(results, order, m),
    decreases m - n,
{
    if n < m {
        if n < 0 {
            assert(reported_by(results, order, 0));
            lemma_reported_by_more(results, order, 0, m);
        } else {
            assert(reported_by(results, order, n + 1));
            lemma_reported_by_more(results, order, n + 1, m);
        }
    }
}

/// A search's results stay what the sources that have answered can have
/// reported, whatever the caller reports.
pub proof fn law_search_keeps_form(
    run: SearchRunView,
    event: SearchEventView,
    next: SearchRunView,
    action: SearchActionView,
)
    requires
        well_formed(run),
        search_step(run, event, next, action),
    ensures
        well_formed(next),
        action matches SearchActionView::Finished(Ok(found)) ==> found == next.results,
{
    let n = answered_of(run);
    lemma_reported_by_more(run.results, run.order, n, run.order.len() as int);
    match run.phase {
        SearchPhase::Asked(i) => {
            if let SearchEventView::Responses(pages) = event {
                let found = choose|found: Result<Seq<TorrentInfoView>, KisaraErrorView>|
                    answers_of(run.order[i as int], pages, found) && #[trigger] follows_answer(
                        run,
                        i as int,
                        found,
                        next,
                        action,
                    );
                if let Ok(list) = found {
                    let more = with_found(run.results, run.order[i as int], list);
                    if list.len() > 0 {
                        assert(more.drop_last() =~= run.results);
                    }
                    assert(reported_by(more, run.order, i + 1));
                    lemma_reported_by_more(more, run.order, i + 1, run.order.len() as int);
                }
            }
        },
        _ => {},
    }
}

proof fn lemma_reported_sources(
    results: Seq<SourceResultView>,
    order: Seq<AdapterFactory>,
    n: int,
)
    requires
        reported_by(results, order, n),
        n <= order.len(),
        distinct_names(order),
    ensures
        forall|k: int|
            0 <= k < results.len() ==> (#[trigger] results[k]).torrents.len() > 0 && exists|j: int|
                0 <= j < n && (#[trigger] order[j]).name_of() == results[k].source,
        forall|a: int, b: int|
            0 <= a < b < results.len() ==> (#[trigger] results[a]).source != (
            #[trigger] results[b]).source,
    decreases n,
{
    if n > 0 {
        if reported_by(results, order, n - 1) {
            lemma_reported_sources(results, order, n - 1);
            assert forall|k: int| 0 <= k < results.len() implies (
            #[trigger] results[k]).torrents.len() > 0 && exists|j: int|
                0 <= j < n && (#[trigger] order[j]).name_of() == results[k].source by {
                let j = choose|j: int|
                    0 <= j < n - 1 && (#[trigger] order[j]).name_of() == results[k].source;
                assert(order[j].name_of() == results[k].source);
            }
        } else {
            let rest = results.drop_last();
            lemma_reported_sources(rest, order, n - 1);
            assert forall|k: int| 0 <= k < results.len() implies (
            #[trigger] results[k]).torrents.len() > 0 && exists|j: int|
                0 <= j < n && (#[trigger] order[j]).name_of() == results[k].source by {
                if k < rest.len() {
                    assert(results[k] == rest[k]);
                    let j = choose|j: int|
                        0 <= j < n - 1 && (#[trigger] order[j]).name_of() == rest[k].source;
                    assert(order[j].name_of() == results[k].source);
                } else {
                    assert(order[n - 1].name_of() == results[k].source);
                }
            }
            assert forall|a: int, b: int| 0 <= a < b < results.len() implies (
            #[trigger] results[a]).source != (#[trigger] results[b]).source by {
                assert(results[a] == rest[a]);
                if b < rest.len() {
                    assert(results[b] == rest[b]);
                } else {
                    let j = choose|j: int|
                        0 <= j < n - 1 && (#[trigger] order[j]).name_of() == rest[a].source;
                    assert(order[j].name_of() != order[n - 1].name_of());
                }
            }
        }
    }
}

/// What a search reports: no source is reported twice, every source that is
/// reported is one of those asked and has found a release. A source that
/// found nothing is not reported at all.
pub proof fn law_each_source_is_reported_once(run: SearchRunView)
    requires
        well_formed(run),
        distinct_names(run.order),
    ensures
        forall|k: int|
            0 <= k < run.results.len() ==> (#[trigger] run.results[k]).torrents.len() > 0
                && has_source(run.order, run.results[k].source),
        forall|a: int, b: int|
            0 <= a < b < run.results.len() ==> (#[trigger] run.results[a]).source != (
            #[trigger] run.results[b]).source,
{
    let n = answered_of(run);
    lemma_reported_sources(run.results, run.order, n);
    assert forall|k: int| 0 <= k < run.results.len() implies has_source(
        run.order,
        (#[trigger] run.results[k]).source,
    ) by {
        let j = choose|j: int|
            0 <= j < n && (#[trigger] run.order[j]).name_of() == run.results[k].source;
        assert(run.order[j].name_of() == run.results[k].source);
    }
}

/// The order in which sources are asked keeps their names apart, as the
/// registry does.
pub proof fn law_search_order_keeps_names(order: Seq<AdapterFactory>, sources: Seq<AdapterFactory>)
    requires
        is_search_order(order, sources),
        distinct_names(sources),
    ensures
        distinct_names(order),
        forall|name: Seq<char>| has_source(order, name) <==> has_source(sources, name),
{
    broadcast use vstd::seq_lib::to_multiset_contains;
    broadcast use vstd::seq_lib::to_multiset_len;

    assert forall|name: Seq<char>| has_source(order, name) <==> has_source(sources, name) by {
        if has_source(order, name) {
            let i = choose|i: int| 0 <= i < order.len() && (#[trigger] order[i]).name_of() == name;
            assert(order.contains(order[i]));
            assert(sources.to_multiset().count(order[i]) > 0);
            assert(sources.contains(order[i]));
            let j = choose|j: int| 0 <= j < sources.len() && sources[j] == order[i];
            assert(sources[j].name_of() == name);
        }
        if has_source(sources, name) {
            let i = choose|i: int|
                0 <= i < sources.len() && (#[trigger] sources[i]).name_of() == name;
            assert(sources.contains(sources[i]));
            assert(order.to_multiset().count(sources[i]) > 0);
            assert(order.contains(sources[i]));
            let j = choose|j: int| 0 <= j < order.len() && order[j] == sources[i];
            assert(order[j].name_of() == name);
        }
    }
    assert(sources.no_duplicates()) by {
        assert forall|i: int, j: int|
            0 <= i < sources.len() && 0 <= j < sources.len() && i != j implies sources[i]
            != sources[j] by {
            if i < j {
                assert(sources[i].name_of() != sources[j].name_of());
            } else {
                assert(sources[j].name_of() != sources[i].name_of());
            }
        }
    }
    sources.lemma_multiset_has_no_duplicates();
    order.lemma_multiset_has_no_duplicates_conv();
    assert forall|a: int, b: int| 0 <= a < b < order.len() implies (#[trigger] order[a]).name_of()
        != (#[trigger] order[b]).name_of() by {
        assert(order[a] != order[b]);
        assert(order.contains(order[a]) && order.contains(order[b]));
        assert(sources.to_multiset().count(order[a]) > 0);
        assert(sources.to_multiset().count(order[b]) > 0);
        assert(sources.contains(order[a]) && sources.contains(order[b]));
        let i = choose|i: int| 0 <= i < sources.len() && sources[i] == order[a];
        let j = choose|j: int| 0 <= j < sources.len() && sources[j] == order[b];
        if i < j {
            assert(sources[i].name_of() != sources[j].name_of());
        } else {
            assert(sources[j].name_of() != sources[i].name_of());
        }
    }
}

} // verus!
