//! The catalogue's records: an anime, its episodes, and what the metadata
//! service returns for them.

use vstd::prelude::*;
use crate::text::{push_text, sorted_unique, strictly_ascending};

verus! {

#[verifier::external_type_specification]
#[verifier::external_body]
pub struct ExNaiveDate(chrono::NaiveDate);

#[verifier::external_type_specification]
#[verifier::external_body]
pub struct ExNaiveDateTime(chrono::NaiveDateTime);

/// The date that a text in the form year-month-day spells, if it spells one.
pub uninterp spec fn parsed_date(text: Seq<char>) -> Option<chrono::NaiveDate>;

/// Calls `NaiveDate::from_str` and drops the error: the date that the text
/// spells, as `parsed_date` names it.
#[verifier::external_body]
fn parse_date(text: &str) -> (date: Option<chrono::NaiveDate>)
    ensures
        date == parsed_date(text@),
{
    <chrono::NaiveDate as std::str::FromStr>::from_str(text).ok()
}

#[verifier::external_type_specification]
#[verifier::external_body]
pub struct ExJsonValue(serde_json::Value);

/// The member of a JSON object under a key; `None` where the value is no
/// object or has no such member.
pub uninterp spec fn json_member(value: serde_json::Value, key: Seq<char>) -> Option<
    serde_json::Value,
>;

/// The items of a JSON array; `None` where the value is no array.
pub uninterp spec fn json_items(value: serde_json::Value) -> Option<Seq<serde_json::Value>>;

/// The characters of a JSON string; `None` where the value is no string.
pub uninterp spec fn json_text(value: serde_json::Value) -> Option<Seq<char>>;

/// Calls `Value::get` with a key: the member that `json_member` names.
#[verifier::external_body]
fn member<'a>(value: &'a serde_json::Value, key: &str) -> (found: Option<&'a serde_json::Value>)
    ensures
        (found is Some) == (json_member(*value, key@) is Some),
        found is Some ==> *found->0 == json_member(*value, key@)->0,
{
    value.get(key)
}

/// Calls `Value::as_array`: the items that `json_items` names.
#[verifier::external_body]
fn items<'a>(value: &'a serde_json::Value) -> (found: Option<&'a Vec<serde_json::Value>>)
    ensures
        (found is Some) == (json_items(*value) is Some),
        found is Some ==> found->0@ == json_items(*value)->0,
{
    value.as_array()
}

/// Calls `Value::as_str`: the text that `json_text` names.
#[verifier::external_body]
fn text<'a>(value: &'a serde_json::Value) -> (found: Option<&'a str>)
    ensures
        (found is Some) == (json_text(*value) is Some),
        found is Some ==> found->0@ == json_text(*value)->0,
{
    value.as_str()
}

/// The alias that an entry of the alias list gives: the text of its member
/// `v`, if it has one that is a text.
pub open spec fn alias_of(entry: serde_json::Value) -> Option<Seq<char>> {
    match json_member(entry, "v"@) {
        Some(v) => json_text(v),
        None => None,
    }
}

/// The aliases that the entries of an alias list give, in their order.
pub open spec fn aliases_in(entries: Seq<serde_json::Value>) -> Seq<Seq<char>>
    decreases entries.len(),
{
    if entries.len() == 0 {
        Seq::empty()
    } else {
        let before = aliases_in(entries.drop_last());
        match alias_of(entries.last()) {
            Some(alias) => before.push(alias),
            None => before,
        }
    }
}

/// The aliases of an anime as its info box lists them: under the member
/// `别名`, a list of entries. An info box without such a list gives none.
pub open spec fn aliases_of(infobox: serde_json::Value) -> Seq<Seq<char>> {
    match json_member(infobox, "别名"@) {
        Some(list) => match json_items(list) {
            Some(entries) => aliases_in(entries),
            None => Seq::empty(),
        },
        None => Seq::empty(),
    }
}

/// Reads the aliases of an anime out of its info box.
pub fn aliases_from_infobox(infobox: &serde_json::Value) -> (aliases: Vec<String>)
    ensures
        aliases.deep_view() == aliases_of(*infobox),
{
    let mut aliases: Vec<String> = Vec::new();
    assert(aliases.deep_view() =~= Seq::empty());
    let list = match member(infobox, "别名") {
        Some(list) => list,
        None => {
            return aliases;
        },
    };
    let entries = match items(list) {
        Some(entries) => entries,
        None => {
            return aliases;
        },
    };
    let mut i: usize = 0;
    assert(entries@.take(0) =~= Seq::<serde_json::Value>::empty());
    while i < entries.len()
        invariant
            i <= entries.len(),
            aliases.deep_view() =~= aliases_in(entries@.take(i as int)),
        decreases entries.len() - i,
    {
        let ghost upto = entries@.take(i + 1);
        assert(upto.drop_last() =~= entries@.take(i as int));
        assert(upto.last() == entries@[i as int]);
        match member(&entries[i], "v") {
            Some(v) => match text(v) {
                Some(alias) => {
                    push_text(&mut aliases, String::from_str(alias));
                },
                None => {},
            },
            None => {},
        }
        i += 1;
    }
    assert(entries@.take(i as int) =~= entries@);
    aliases
}

/// The order in which the metadata service is asked to list what it finds.
#[derive(Debug, Clone, Copy, PartialEq, Eq, Structural)]
pub enum SortType {
    Match,
    Heat,
    Rank,
    Score,
}

/// The word by which the metadata service knows a sort order.
pub open spec fn sort_name_of(sort: SortType) -> Seq<char> {
    match sort {
        SortType::Match => "match"@,
        SortType::Heat => "heat"@,
        SortType::Rank => "rank"@,
        SortType::Score => "score"@,
    }
}

impl SortType {
    /// The word by which the metadata service knows this sort order.
    pub fn name(&self) -> (s: &'static str)
        ensures
            s@ == sort_name_of(*self),
    {
        match self {
            SortType::Match => "match",
            SortType::Heat => "heat",
            SortType::Rank => "rank",
            SortType::Score => "score",
        }
    }
}

/// One page of a longer list.
#[derive(Debug)]
pub struct Paginated<T> {
    /// How many items the whole list has.
    pub total: u32,
    /// How many items a page has at most.
    pub limit: u32,
    /// How many items precede this page.
    pub offset: u32,
    /// The items of this page.
    pub data: Vec<T>,
}

/// The addresses of an anime's cover in its sizes.
#[derive(Debug)]
pub struct AnimeSearchResultItemImages {
    pub large: String,
    pub common: String,
    pub medium: String,
    pub small: String,
    pub grid: String,
}

/// A tag of an anime and how many users gave it.
#[derive(Debug)]
pub struct AnimeTag {
    pub name: String,
    pub count: u32,
}

/// An episode as the metadata service describes it.
#[derive(Debug)]
pub struct EpisodeSearchResultItem {
    pub id: i32,
    pub name: String,
    pub name_cn: String,
    pub sort: i32,
    pub ep: Option<i32>,
    pub air_date: String,
}

/// An anime of the catalogue.
#[derive(Debug)]
pub struct Anime {
    pub id: i32,
    /// The primary name.
    pub name: String,
    /// Other names under which releases may be listed.
    pub aliases: Vec<String>,
    /// The localised name.
    pub name_cn: String,
    pub image: String,
    pub release_date: Option<chrono::NaiveDate>,
    /// Search words that the user added.
    pub keywords: Vec<String>,
}

/// An episode of the catalogue.
#[derive(Debug)]
pub struct Episode {
    pub id: i32,
    pub anime_id: i32,
    /// The position of the episode among all episodes of the anime.
    pub sort: i32,
    /// The number of the episode within its season, where it has one.
    pub ep: Option<i32>,
    pub name: String,
    pub name_cn: String,
    pub air_date: Option<chrono::NaiveDate>,
    pub progress: i32,
    pub last_watch_time: Option<chrono::NaiveDateTime>,
    pub torrent_id: Option<String>,
}

impl Anime {
    /// The catalogue's record of an anime that the metadata service
    /// describes: its aliases are read out of the info box, its release date
    /// out of the date's text, and no search words are added yet.
    pub fn from_search_result(
        id: i32,
        name: String,
        name_cn: String,
        image: String,
        date: Option<String>,
        infobox: &serde_json::Value,
    ) -> (anime: Self)
        ensures
            anime.id == id,
            anime.name@ == name@,
            anime.name_cn@ == name_cn@,
            anime.image@ == image@,
            anime.aliases.deep_view() == aliases_of(*infobox),
            anime.release_date == (match date {
                Some(d) => parsed_date(d@),
                None => None,
            }),
            anime.keywords@.len() == 0,
    {
        let release_date = match &date {
            Some(d) => parse_date(d.as_str()),
            None => None,
        };
        Anime {
            id,
            name,
            aliases: aliases_from_infobox(infobox),
            name_cn,
            image,
            release_date,
            keywords: Vec::new(),
        }
    }
}

/// The number under which releases list an episode: its own number where it
/// has one, else its position.
pub open spec fn display_number_of(ep: Option<i32>, sort: i32) -> i32 {
    match ep {
        Some(n) => n,
        None => sort,
    }
}

impl Episode {
    /// The catalogue's record of an episode that the metadata service
    /// describes: nothing watched, no torrent attached.
    pub fn from_search_result(item: EpisodeSearchResultItem, anime_id: i32) -> (e: Self)
        ensures
            e.id == item.id,
            e.anime_id == anime_id,
            e.sort == item.sort,
            e.ep == item.ep,
            e.name@ == item.name@,
            e.name_cn@ == item.name_cn@,
            e.air_date == parsed_date(item.air_date@),
            e.progress == 0,
            e.last_watch_time is None,
            e.torrent_id is None,
    {
        let air_date = parse_date(item.air_date.as_str());
        Episode {
            id: item.id,
            anime_id,
            sort: item.sort,
            ep: item.ep,
            name: item.name,
            name_cn: item.name_cn,
            air_date,
            progress: 0,
            last_watch_time: None,
            torrent_id: None,
        }
    }

    /// The number under which releases list this episode.
    pub fn display_number(&self) -> (n: i32)
        ensures
            n == display_number_of(self.ep, self.sort),
    {
        match self.ep {
            Some(n) => n,
            None => self.sort,
        }
    }
}

/// The suggestions for a search: the names that the metadata service found,
/// each once, in ascending order.
pub fn search_suggestions(names: &Vec<String>) -> (suggestions: Vec<String>)
    ensures
        strictly_ascending(suggestions.deep_view()),
        forall|t: Seq<char>| suggestions.deep_view().contains(t) <==> names.deep_view().contains(t),
{
    sorted_unique(names, true)
}

/// Where a page of search results begins, and how long it is: pages are
/// counted from 1 and hold 20 results unless another length is asked for.
/// There is no such place for page 0, nor where it is beyond the 32-bit
/// range.
pub open spec fn page_window_of(page: Option<u32>, limit: Option<u32>) -> Option<(u32, u32)> {
    let limit = match limit {
        Some(l) => l,
        None => 20u32,
    };
    let page = match page {
        Some(p) => p,
        None => 1u32,
    };
    if page >= 1 && (page - 1) * limit <= u32::MAX {
        Some((((page - 1) * limit) as u32, limit))
    } else {
        None
    }
}

/// The offset and the length of a page of search results.
pub fn page_window(page: Option<u32>, limit: Option<u32>) -> (window: Option<(u32, u32)>)
    ensures
        window == page_window_of(page, limit),
{
    let limit: u32 = match limit {
        Some(l) => l,
        None => 20,
    };
    let page: u32 = match page {
        Some(p) => p,
        None => 1,
    };
    if page < 1 {
        return None;
    }
    assert((page - 1) * limit <= 0xffff_ffff * 0xffff_ffff) by (nonlinear_arith)
        requires
            0 <= page - 1 <= 0xffff_ffff,
            0 <= limit <= 0xffff_ffff,
    ;
    let offset: u64 = ((page - 1) as u64) * (limit as u64);
    if offset > 0xffff_ffff {
        None
    } else {
        Some((offset as u32, limit))
    }
}

/// The address of a page of the metadata service's search.
pub open spec fn search_address_of(offset: u32, limit: u32) -> Seq<char> {
    "https://api.bgm.tv/v0/search/subjects?offset="@ + crate::text::decimal_digits(offset as nat)
        + "&limit="@ + crate::text::decimal_digits(limit as nat)
}

/// The address of a page of the metadata service's search.
pub fn search_address(offset: u32, limit: u32) -> (url: String)
    ensures
        url@ == search_address_of(offset, limit),
{
    let mut url = String::from_str("https://api.bgm.tv/v0/search/subjects?offset=");
    let o = crate::text::u64_to_string(offset as u64);
    url.append(o.as_str());
    url.append("&limit=");
    let l = crate::text::u64_to_string(limit as u64);
    url.append(l.as_str());
    url
}

/// The offsets of the pages that are still to be asked for when a list of
/// `total` items was read up to `next`, in pages of `limit` items: `next`
/// and every further multiple of the page length below `total`. A service
/// that reports pages of no items is not asked again.
pub open spec fn following_offsets_of(next: int, total: int, limit: int) -> Seq<int>
    decreases
            (if next < total {
                total - next
            } else {
                0
            }),
{
    if limit <= 0 || next >= total {
        Seq::empty()
    } else {
        seq![next] + following_offsets_of(next + limit, total, limit)
    }
}

/// The offsets of the pages that follow the first page of a list.
pub fn following_offsets<T>(first: &Paginated<T>) -> (offsets: Vec<u32>)
    ensures
        offsets@.map_values(|o: u32| o as int) == following_offsets_of(
            first.offset + first.limit,
            first.total as int,
            first.limit as int,
        ),
{
    let mut offsets: Vec<u32> = Vec::new();
    let total: u64 = first.total as u64;
    let limit: u64 = first.limit as u64;
    let start: u64 = first.offset as u64 + limit;
    let mut next: u64 = start;
    let ghost all = following_offsets_of(start as int, total as int, limit as int);
    if limit == 0 {
        assert(offsets@.map_values(|o: u32| o as int) =~= all);
        return offsets;
    }
    while next < total
        invariant
            limit > 0,
            limit <= u32::MAX,
            total <= u32::MAX,
            start <= next,
            all == following_offsets_of(start as int, total as int, limit as int),
            all == offsets@.map_values(|o: u32| o as int) + following_offsets_of(
                next as int,
                total as int,
                limit as int,
            ),
        decreases
                (if next < total {
                    total - next
                } else {
                    0
                }),
    {
        let ghost before = offsets@.map_values(|o: u32| o as int);
        offsets.push(next as u32);
        assert(offsets@.map_values(|o: u32| o as int) =~= before.push(next as int));
        assert(before + (seq![next as int] + following_offsets_of(
            next + limit,
            total as int,
            limit as int,
        )) =~= before.push(next as int) + following_offsets_of(
            next + limit,
            total as int,
            limit as int,
        ));
        next = next + limit;
    }
    assert(offsets@.map_values(|o: u32| o as int) + Seq::<int>::empty() =~= offsets@.map_values(
        |o: u32| o as int,
    ));
    offsets
}

} // verus!
