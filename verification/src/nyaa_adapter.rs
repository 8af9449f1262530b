//! The source that reads the search result pages of the Nyaa torrent index.

use vstd::prelude::*;
use vstd::string::StringSliceAdditionalSpecFns;
use crate::error::{KisaraError, KisaraErrorView, KisaraResult};
use crate::data::{display_number_of, Anime, Episode};
use crate::release::{
    dedup_by_magnet, is_ranking_of, rank_by_seeders, without_repeats, TorrentInfo,
    TorrentInfoView,
};
use crate::torrent_adapters::{torrents_result_view, TorrentAdapter, TorrentAdapterFactory};
use crate::text::{
    decimal, decimal_digits, digit_char, i64_to_string, is_unsigned_literal,
    law_ascending_list_is_decided_by_its_members, parse_unsigned,
    push_text, sorted_unique, strictly_ascending, unsigned_value,
};

verus! {

#[verifier::external_type_specification]
#[verifier::external_body]
pub struct ExNodeRef(kuchikiki::NodeRef);

/// The document tree that the HTML parser builds from a page's text.
pub uninterp spec fn parsed_document(html: Seq<char>) -> kuchikiki::NodeRef;

/// The elements in and under a node that match a CSS selector list, in
/// document order; `None` where the selector list is not valid.
pub uninterp spec fn selected_nodes(node: kuchikiki::NodeRef, selector: Seq<char>) -> Option<
    Seq<kuchikiki::NodeRef>,
>;

/// All the text in and under a node.
pub uninterp spec fn node_text(node: kuchikiki::NodeRef) -> Seq<char>;

/// The value of an element's attribute of the given name, if it has one.
pub uninterp spec fn node_attribute(node: kuchikiki::NodeRef, name: Seq<char>) -> Option<
    Seq<char>,
>;

/// The first of the matching elements, if the selector is valid and matches.
pub open spec fn first_selected(node: kuchikiki::NodeRef, selector: Seq<char>) -> Option<
    kuchikiki::NodeRef,
> {
    match selected_nodes(node, selector) {
        Some(found) => if found.len() > 0 {
            Some(found[0])
        } else {
            None
        },
        None => None,
    }
}

/// Calls `kuchikiki::parse_html().one(html)`: the page is parsed as an HTML
/// document, which never fails. The tree that comes back is the one that
/// `parsed_document` names. The parser takes the page as one buffer whose
/// length is a 32-bit number, and stops the program on a longer page: such a
/// page is left out.
#[verifier::external_body]
fn parse_document(html: &str) -> (doc: kuchikiki::NodeRef)
    requires
        html.spec_bytes().len() <= u32::MAX,
    ensures
        doc == parsed_document(html@),
{
    kuchikiki::traits::TendrilSink::one(kuchikiki::parse_html(), html)
}

/// Calls `NodeRef::select`: the matching elements among the node and its
/// descendants, as `selected_nodes` names them, each handed out as its node.
/// There is no result where the selector list does not compile.
#[verifier::external_body]
fn select_all(node: &kuchikiki::NodeRef, selector: &str) -> (found: Option<
    Vec<kuchikiki::NodeRef>,
>)
    ensures
        (found is Some) == (selected_nodes(*node, selector@) is Some),
        found is Some ==> found->0@ == selected_nodes(*node, selector@)->0,
{
    node.select(selector).ok().map(|found| found.map(|e| e.as_node().clone()).collect())
}

/// Calls `NodeRef::select_first`, which takes the first element that
/// `NodeRef::select` yields and fails where there is none or the selector
/// list does not compile.
#[verifier::external_body]
fn select_first(node: &kuchikiki::NodeRef, selector: &str) -> (found: Option<kuchikiki::NodeRef>)
    ensures
        found == first_selected(*node, selector@),
{
    node.select_first(selector).ok().map(|e| e.as_node().clone())
}

/// Calls `NodeRef::text_contents`: the text nodes in and under the node, put
/// together, as `node_text` names it.
#[verifier::external_body]
fn text_contents(node: &kuchikiki::NodeRef) -> (text: String)
    ensures
        text@ == node_text(*node),
{
    node.text_contents()
}

/// Calls `Attributes::get` on the attributes of an element: the value of the
/// attribute of that name without a namespace, as `node_attribute` names it.
/// A node that is no element has no attributes.
#[verifier::external_body]
fn attribute(node: &kuchikiki::NodeRef, name: &str) -> (value: Option<String>)
    ensures
        value.deep_view() == node_attribute(*node, name@),
{
    match node.as_element() {
        Some(element) => element.attributes.borrow().get(name).map(|v| v.to_owned()),
        None => None,
    }
}

/// The link in a result row that names the release.
#[derive(Debug)]
pub struct RowLink {
    /// The text of the link.
    pub text: String,
    /// Where the link leads, if it says so.
    pub href: Option<String>,
}

/// What one row of the result table holds, as far as a release is read from
/// it. Each cell is `None` where the row has no such cell.
#[derive(Debug)]
pub struct RowCells {
    /// The first link of the second cell that is no link to the comments.
    pub title: Option<RowLink>,
    /// The target of the first magnet link of the third cell.
    pub magnet: Option<String>,
    /// The text of the fourth cell.
    pub size: Option<String>,
    /// The text of the fifth cell.
    pub date: Option<String>,
    /// The text of the sixth cell.
    pub seeders: Option<String>,
    /// The text of the seventh cell.
    pub leechers: Option<String>,
}

/// The mathematical value of a [`RowLink`].
pub struct RowLinkView {
    pub text: Seq<char>,
    pub href: Option<Seq<char>>,
}

/// The mathematical value of a [`RowCells`].
pub struct RowCellsView {
    pub title: Option<RowLinkView>,
    pub magnet: Option<Seq<char>>,
    pub size: Option<Seq<char>>,
    pub date: Option<Seq<char>>,
    pub seeders: Option<Seq<char>>,
    pub leechers: Option<Seq<char>>,
}

impl DeepView for RowLink {
    type V = RowLinkView;

    open spec fn deep_view(&self) -> RowLinkView {
        RowLinkView { text: self.text@, href: self.href.deep_view() }
    }
}

impl DeepView for RowCells {
    type V = RowCellsView;

    open spec fn deep_view(&self) -> RowCellsView {
        RowCellsView {
            title: self.title.deep_view(),
            magnet: self.magnet.deep_view(),
            size: self.size.deep_view(),
            date: self.date.deep_view(),
            seeders: self.seeders.deep_view(),
            leechers: self.leechers.deep_view(),
        }
    }
}

/// The count that a cell's text gives: the number it spells, if it spells
/// one that fits 32 bits.
pub open spec fn count_of(cell: Option<Seq<char>>) -> Option<u32> {
    match cell {
        Some(text) => if is_unsigned_literal(text) && unsigned_value(text) <= u32::MAX {
            Some(unsigned_value(text) as u32)
        } else {
            None
        },
        None => None,
    }
}

/// The address of a page of the index, from a link within the site.
pub open spec fn site_url_of(href: Option<Seq<char>>) -> Option<Seq<char>> {
    match href {
        Some(path) => Some("https://nyaa.si"@ + path),
        None => None,
    }
}

/// The release that a row describes. A row without a title link or without a
/// magnet link describes none. The other cells may be missing, and a count
/// that is no number is left out.
pub open spec fn torrent_of_cells(cells: RowCellsView) -> Option<TorrentInfoView> {
    if cells.title is Some && cells.magnet is Some {
        Some(
            TorrentInfoView {
                name: cells.title->0.text,
                size: cells.size,
                url: site_url_of(cells.title->0.href),
                magnet: cells.magnet->0,
                date: cells.date,
                seeders: count_of(cells.seeders),
                leechers: count_of(cells.leechers),
                uploader: None,
            },
        )
    } else {
        None
    }
}

fn count(cell: &Option<String>) -> (n: Option<u32>)
    ensures
        n == count_of(cell.deep_view()),
{
    match cell {
        Some(text) => match parse_unsigned(text.as_str(), 0xffff_ffff) {
            Ok(v) => Some(v as u32),
            Err(_) => None,
        },
        None => None,
    }
}

/// Reads the release out of the cells of a row.
pub fn torrent_from_cells(cells: RowCells) -> (torrent: Option<TorrentInfo>)
    ensures
        torrent.deep_view() == torrent_of_cells(cells.deep_view()),
{
    let seeders = count(&cells.seeders);
    let leechers = count(&cells.leechers);
    let RowCells { title, magnet, size, date, seeders: _, leechers: _ } = cells;
    match title {
        None => None,
        Some(link) => match magnet {
            None => None,
            Some(magnet) => {
                let url = match link.href {
                    Some(path) => {
                        let mut url = String::from_str("https://nyaa.si");
                        url.append(path.as_str());
                        Some(url)
                    },
                    None => None,
                };
                Some(
                    TorrentInfo {
                        name: link.text,
                        size,
                        url,
                        magnet,
                        date,
                        seeders,
                        leechers,
                        uploader: None,
                    },
                )
            },
        },
    }
}

/// The text of the first element under `row` that the selector matches.
pub open spec fn cell_text_of(row: kuchikiki::NodeRef, selector: Seq<char>) -> Option<Seq<char>> {
    match first_selected(row, selector) {
        Some(cell) => Some(node_text(cell)),
        None => None,
    }
}

/// The cells of a row of the result table.
pub open spec fn cells_of_row(row: kuchikiki::NodeRef) -> RowCellsView {
    RowCellsView {
        title: match first_selected(row, "td:nth-child(2) > a:not(.comments)"@) {
            Some(link) => Some(
                RowLinkView { text: node_text(link), href: node_attribute(link, "href"@) },
            ),
            None => None,
        },
        magnet: match first_selected(row, "td:nth-child(3) > a[href^=\"magnet:\"]"@) {
            Some(link) => node_attribute(link, "href"@),
            None => None,
        },
        size: cell_text_of(row, "td:nth-child(4)"@),
        date: cell_text_of(row, "td:nth-child(5)"@),
        seeders: cell_text_of(row, "td:nth-child(6)"@),
        leechers: cell_text_of(row, "td:nth-child(7)"@),
    }
}

/// The releases that the given rows describe, in the rows' order.
pub open spec fn torrents_of_rows(rows: Seq<kuchikiki::NodeRef>) -> Seq<TorrentInfoView>
    decreases rows.len(),
{
    if rows.len() == 0 {
        Seq::empty()
    } else {
        let before = torrents_of_rows(rows.drop_last());
        match torrent_of_cells(cells_of_row(rows.last())) {
            Some(torrent) => before.push(torrent),
            None => before,
        }
    }
}

/// The longest page that is parsed, in bytes.
pub const MAX_PAGE_BYTES: usize = 0xffff_ffff;

/// What a result page yields: the releases of the rows of its result table,
/// or an error where the page has no such table. A page of more than
/// `MAX_PAGE_BYTES` bytes is not parsed and is an error too.
pub open spec fn page_torrents(html: Seq<char>) -> Result<Seq<TorrentInfoView>, KisaraErrorView> {
    if vstd::utf8::encode_utf8(html).len() > MAX_PAGE_BYTES {
        Err(KisaraErrorView::HtmlParseError("Page is too long to parse"@))
    } else {
        match first_selected(parsed_document(html), "table.torrent-list"@) {
            None => Err(KisaraErrorView::HtmlParseError("Failed to select table.torrent-list"@)),
            Some(table) => match selected_nodes(table, "tr"@) {
                None => Err(
                    KisaraErrorView::HtmlParseError(
                        "Failed to select rows in table.torrent-list"@,
                    ),
                ),
                Some(rows) => Ok(torrents_of_rows(rows)),
            },
        }
    }
}

fn cell_text(row: &kuchikiki::NodeRef, selector: &str) -> (text: Option<String>)
    ensures
        text.deep_view() == cell_text_of(*row, selector@),
{
    match select_first(row, selector) {
        Some(cell) => Some(text_contents(&cell)),
        None => None,
    }
}

fn row_cells(row: &kuchikiki::NodeRef) -> (cells: RowCells)
    ensures
        cells.deep_view() == cells_of_row(*row),
{
    let title = match select_first(row, "td:nth-child(2) > a:not(.comments)") {
        Some(link) => Some(RowLink { text: text_contents(&link), href: attribute(&link, "href") }),
        None => None,
    };
    let magnet = match select_first(row, "td:nth-child(3) > a[href^=\"magnet:\"]") {
        Some(link) => attribute(&link, "href"),
        None => None,
    };
    RowCells {
        title,
        magnet,
        size: cell_text(row, "td:nth-child(4)"),
        date: cell_text(row, "td:nth-child(5)"),
        seeders: cell_text(row, "td:nth-child(6)"),
        leechers: cell_text(row, "td:nth-child(7)"),
    }
}

/// How an episode's number is written in a search: numbers below 10 with a
/// zero before them, all others as they are.
pub open spec fn episode_label_of(number: int) -> Seq<char> {
    if number < 10 {
        "0"@ + decimal(number)
    } else {
        decimal(number)
    }
}

/// Writes an episode's number as searches have it.
pub fn episode_label(number: i32) -> (label: String)
    ensures
        label@ == episode_label_of(number as int),
{
    let digits = i64_to_string(number as i64);
    if number < 10 {
        let mut label = String::from_str("0");
        label.append(digits.as_str());
        label
    } else {
        digits
    }
}

/// An episode number below 10 is written with a zero before it, and a
/// number from 10 on as it is. So a number from 0 to 9 is written with two
/// digits, the first of them a zero, and a number from 10 on in plain
/// decimal, which has two digits or more and does not begin with a zero.
pub proof fn law_episode_label_has_two_digits(number: int)
    ensures
        number < 10 ==> episode_label_of(number) == "0"@ + decimal(number),
        number >= 10 ==> episode_label_of(number) == decimal_digits(number as nat),
        0 <= number < 10 ==> episode_label_of(number) == seq!['0', digit_char(number)],
        number >= 10 ==> episode_label_of(number).len() >= 2 && episode_label_of(number)[0]
            != '0',
        0 <= number ==> episode_label_of(number).len() >= 2,
{
    reveal_strlit("0");
    if 0 <= number < 10 {
        assert(decimal(number) =~= seq![digit_char(number)]);
        assert(episode_label_of(number) =~= seq!['0', digit_char(number)]);
    } else if number >= 10 {
        lemma_decimal_digits_shape(number as nat);
    }
}

proof fn lemma_decimal_digits_shape(n: nat)
    ensures
        decimal_digits(n).len() >= 1,
        n >= 10 ==> decimal_digits(n).len() >= 2,
        n >= 1 ==> decimal_digits(n)[0] != '0',
    decreases n,
{
    if n >= 10 {
        lemma_decimal_digits_shape(n / 10);
        let head = decimal_digits(n / 10);
        assert(decimal_digits(n)[0] == head[0]);
    }
}

/// The search words for a name, an alias or a word that the user added:
/// the name, a space, then the episode's label in double quotes.
pub open spec fn quoted_keyword_of(name: Seq<char>, label: Seq<char>) -> Seq<char> {
    name + " \""@ + label + "\""@
}

/// Every search that an episode gives rise to: one for each alias of the
/// anime, one for its name and one for its localised name, and one for each
/// word that the user added.
pub open spec fn keyword_candidates_of(
    aliases: Seq<Seq<char>>,
    name: Seq<char>,
    name_cn: Seq<char>,
    keywords: Seq<Seq<char>>,
    label: Seq<char>,
) -> Seq<Seq<char>> {
    Seq::new(aliases.len(), |i: int| quoted_keyword_of(aliases[i], label)) + seq![
        quoted_keyword_of(name, label),
        quoted_keyword_of(name_cn, label),
    ] + Seq::new(keywords.len(), |i: int| quoted_keyword_of(keywords[i], label))
}

/// The candidates for an episode of an anime.
pub open spec fn episode_candidates_of(ep: Episode, anime: Anime) -> Seq<Seq<char>> {
    keyword_candidates_of(
        anime.aliases.deep_view(),
        anime.name@,
        anime.name_cn@,
        anime.keywords.deep_view(),
        episode_label_of(display_number_of(ep.ep, ep.sort) as int),
    )
}

fn quoted_keyword(name: &str, label: &str) -> (r: String)
    ensures
        r@ == quoted_keyword_of(name@, label@),
{
    let mut r = String::from_str(name);
    r.append(" \"");
    r.append(label);
    r.append("\"");
    r
}

/// The searches to make for an episode: the candidates that are not empty,
/// each once, in ascending order.
pub fn search_keywords(ep: &Episode, anime: &Anime) -> (keywords: Vec<String>)
    ensures
        strictly_ascending(keywords.deep_view()),
        forall|t: Seq<char>|
            keywords.deep_view().contains(t) <==> episode_candidates_of(*ep, *anime).contains(t)
                && t.len() > 0,
{
    let label = episode_label(ep.display_number());
    let ghost l = label@;
    let ghost first = Seq::new(
        anime.aliases.deep_view().len(),
        |i: int| quoted_keyword_of(anime.aliases.deep_view()[i], l),
    );
    let ghost last = Seq::new(
        anime.keywords.deep_view().len(),
        |i: int| quoted_keyword_of(anime.keywords.deep_view()[i], l),
    );
    let mut all: Vec<String> = Vec::new();
    let mut i: usize = 0;
    while i < anime.aliases.len()
        invariant
            i <= anime.aliases.len(),
            label@ == l,
            first == Seq::new(
                anime.aliases.deep_view().len(),
                |i: int| quoted_keyword_of(anime.aliases.deep_view()[i], l),
            ),
            all.deep_view() =~= first.take(i as int),
        decreases anime.aliases.len() - i,
    {
        assert(anime.aliases.deep_view()[i as int] == anime.aliases[i as int]@);
        push_text(&mut all, quoted_keyword(anime.aliases[i].as_str(), label.as_str()));
        assert(first.take(i + 1) =~= first.take(i as int).push(first[i as int]));
        i += 1;
    }
    assert(first.take(i as int) =~= first);
    push_text(&mut all, quoted_keyword(anime.name.as_str(), label.as_str()));
    push_text(&mut all, quoted_keyword(anime.name_cn.as_str(), label.as_str()));
    let ghost middle = seq![
        quoted_keyword_of(anime.name@, l),
        quoted_keyword_of(anime.name_cn@, l),
    ];
    assert(all.deep_view() =~= first + middle);
    assert(last.take(0) =~= Seq::<Seq<char>>::empty());
    let mut k: usize = 0;
    while k < anime.keywords.len()
        invariant
            k <= anime.keywords.len(),
            label@ == l,
            last == Seq::new(
                anime.keywords.deep_view().len(),
                |i: int| quoted_keyword_of(anime.keywords.deep_view()[i], l),
            ),
            all.deep_view() =~= first + middle + last.take(k as int),
        decreases anime.keywords.len() - k,
    {
        assert(anime.keywords.deep_view()[k as int] == anime.keywords[k as int]@);
        push_text(&mut all, quoted_keyword(anime.keywords[k].as_str(), label.as_str()));
        assert(last.take(k + 1) =~= last.take(k as int).push(last[k as int]));
        k += 1;
    }
    assert(last.take(k as int) =~= last);
    assert(all.deep_view() =~= episode_candidates_of(*ep, *anime));
    sorted_unique(&all, false)
}

/// The address of the result page of a search: releases of anime, any
/// quality, the most seeded first.
pub open spec fn search_url_of(keyword: Seq<char>) -> Seq<char> {
    "https://nyaa.si/?f=0&c=1_0&q="@ + keyword + "&s=seeders&o=desc"@
}

/// The address of the result page of a search.
pub fn search_url(keyword: &str) -> (url: String)
    ensures
        url@ == search_url_of(keyword@),
{
    let mut url = String::from_str("https://nyaa.si/?f=0&c=1_0&q=");
    url.append(keyword);
    url.append("&s=seeders&o=desc");
    url
}

/// The releases on the pages that came back, in the pages' order. `None`
/// stands for a request that failed; it adds nothing, and neither does a
/// page without a result table.
pub open spec fn found_on_pages(pages: Seq<Option<Seq<char>>>) -> Seq<TorrentInfoView>
    decreases pages.len(),
{
    if pages.len() == 0 {
        Seq::empty()
    } else {
        let before = found_on_pages(pages.drop_last());
        match pages.last() {
            Some(html) => match page_torrents(html) {
                Ok(found) => before + found,
                Err(_) => before,
            },
            None => before,
        }
    }
}

/// Gathers the releases of the pages that came back, each magnet link once,
/// the most seeded first.
pub fn gather_results(pages: &Vec<Option<String>>) -> (found: Vec<TorrentInfo>)
    ensures
        is_ranking_of(found.deep_view(), without_repeats(found_on_pages(pages.deep_view()))),
{
    let mut all: Vec<TorrentInfo> = Vec::new();
    let mut i: usize = 0;
    assert(pages.deep_view().take(0) =~= Seq::<Option<Seq<char>>>::empty());
    while i < pages.len()
        invariant
            i <= pages.len(),
            all.deep_view() =~= found_on_pages(pages.deep_view().take(i as int)),
        decreases pages.len() - i,
    {
        let ghost upto = pages.deep_view().take(i + 1);
        assert(upto.drop_last() =~= pages.deep_view().take(i as int));
        assert(upto.last() == pages[i as int].deep_view());
        match &pages[i] {
            Some(html) => match NyaaAdapter::parse(html.as_str()) {
                Ok(found) => {
                    let ghost before = all.deep_view();
                    let mut found = found;
                    let ghost added = found.deep_view();
                    all.append(&mut found);
                    assert(all.deep_view() =~= before + added);
                },
                Err(_) => {},
            },
            None => {},
        }
        i += 1;
    }
    assert(pages.deep_view().take(i as int) =~= pages.deep_view());
    let kept = dedup_by_magnet(&all);
    rank_by_seeders(&kept)
}

/// Whether `keywords` are the searches to make for an episode: the
/// candidates that are not empty, each once, in ascending order.
pub open spec fn is_keyword_list(ep: Episode, anime: Anime, keywords: Seq<Seq<char>>) -> bool {
    &&& strictly_ascending(keywords)
    &&& forall|t: Seq<char>|
        keywords.contains(t) <==> episode_candidates_of(ep, anime).contains(t) && t.len() > 0
}

/// The searches to make for an episode are decided by the episode and the
/// anime: two lists of them are the same list.
pub proof fn law_keyword_list_is_decided(
    ep: Episode,
    anime: Anime,
    a: Seq<Seq<char>>,
    b: Seq<Seq<char>>,
)
    requires
        is_keyword_list(ep, anime, a),
        is_keyword_list(ep, anime, b),
    ensures
        a == b,
{
    law_ascending_list_is_decided_by_its_members(a, b);
}

/// The addresses of the result pages of the given searches.
pub open spec fn search_urls_of(keywords: Seq<Seq<char>>) -> Seq<Seq<char>> {
    Seq::new(keywords.len(), |i: int| search_url_of(keywords[i]))
}

/// The Nyaa source for one episode of one anime.
#[derive(Debug)]
pub struct NyaaAdapter<'a> {
    pub ep: &'a Episode,
    pub anime: &'a Anime,
}

impl<'a> NyaaAdapter<'a> {
    /// Reads the releases out of a search result page.
    pub fn parse(html: &str) -> (r: KisaraResult<Vec<TorrentInfo>>)
        ensures
            torrents_result_view(r) == page_torrents(html@),
    {
        if html.as_bytes().len() > MAX_PAGE_BYTES {
            return Err(
                KisaraError::HtmlParseError(String::from_str("Page is too long to parse")),
            );
        }
        let doc = parse_document(html);
        let table = match select_first(&doc, "table.torrent-list") {
            Some(table) => table,
            None => {
                return Err(
                    KisaraError::HtmlParseError(
                        String::from_str("Failed to select table.torrent-list"),
                    ),
                );
            },
        };
        let rows = match select_all(&table, "tr") {
            Some(rows) => rows,
            None => {
                return Err(
                    KisaraError::HtmlParseError(
                        String::from_str("Failed to select rows in table.torrent-list"),
                    ),
                );
            },
        };
        let mut out: Vec<TorrentInfo> = Vec::new();
        let mut i: usize = 0;
        assert(rows@.take(0) =~= Seq::<kuchikiki::NodeRef>::empty());
        while i < rows.len()
            invariant
                i <= rows.len(),
                out.deep_view() =~= torrents_of_rows(rows@.take(i as int)),
            decreases rows.len() - i,
        {
            let ghost upto = rows@.take(i + 1);
            assert(upto.drop_last() =~= rows@.take(i as int));
            assert(upto.last() == rows@[i as int]);
            let cells = row_cells(&rows[i]);
            match torrent_from_cells(cells) {
                Some(torrent) => {
                    let ghost before = out.deep_view();
                    out.push(torrent);
                    assert(out.deep_view() =~= before.push(torrent.deep_view()));
                },
                None => {},
            }
            i += 1;
        }
        assert(rows@.take(i as int) =~= rows@);
        Ok(out)
    }
}

impl<'a> TorrentAdapter for NyaaAdapter<'a> {
    /// One result page for each search of the episode, whatever page is
    /// asked for.
    open spec fn asks(&self, page: u32, urls: Seq<Seq<char>>) -> bool {
        exists|keywords: Seq<Seq<char>>| #[trigger]
            is_keyword_list(*self.ep, *self.anime, keywords) && urls == search_urls_of(keywords)
    }

    /// The releases of all pages that came back, each magnet link once, the
    /// most seeded first. A search never fails as a whole.
    open spec fn answers(
        &self,
        page: u32,
        responses: Seq<Option<Seq<char>>>,
        found: Result<Seq<TorrentInfoView>, KisaraErrorView>,
    ) -> bool {
        found is Ok && is_ranking_of(found->Ok_0, without_repeats(found_on_pages(responses)))
    }

    fn requests(&self, page: u32) -> (urls: Vec<String>) {
        let keywords = search_keywords(self.ep, self.anime);
        let ghost all = search_urls_of(keywords.deep_view());
        let mut urls: Vec<String> = Vec::new();
        let mut i: usize = 0;
        assert(all.take(0) =~= Seq::<Seq<char>>::empty());
        while i < keywords.len()
            invariant
                i <= keywords.len(),
                all == search_urls_of(keywords.deep_view()),
                urls.deep_view() =~= all.take(i as int),
            decreases keywords.len() - i,
        {
            assert(keywords.deep_view()[i as int] == keywords[i as int]@);
            push_text(&mut urls, search_url(keywords[i].as_str()));
            assert(all.take(i + 1) =~= all.take(i as int).push(all[i as int]));
            i += 1;
        }
        assert(all.take(i as int) =~= all);
        assert(is_keyword_list(*self.ep, *self.anime, keywords.deep_view()));
        urls
    }

    fn search(&self, page: u32, responses: &Vec<Option<String>>) -> (found: KisaraResult<
        Vec<TorrentInfo>,
    >) {
        Ok(gather_results(responses))
    }
}

/// Makes the Nyaa source.
#[derive(Debug, Clone, Copy)]
pub struct NyaaAdapterFactory;

impl NyaaAdapterFactory {
    pub fn new() -> (factory: Self) {
        Self {  }
    }

    /// The source for one episode of one anime.
    pub fn create_adapter<'a>(&self, ep: &'a Episode, anime: &'a Anime) -> (adapter: NyaaAdapter<
        'a,
    >)
        ensures
            adapter.ep == ep,
            adapter.anime == anime,
    {
        NyaaAdapter { ep, anime }
    }
}

impl TorrentAdapterFactory for NyaaAdapterFactory {
    open spec fn name_of(&self) -> Seq<char> {
        "Nyaa"@
    }

    open spec fn priority_of(&self) -> u32 {
        0
    }

    fn source_name(&self) -> (name: String) {
        String::from_str("Nyaa")
    }

    fn priority(&self) -> (priority: u32) {
        0
    }
}

} // verus!
