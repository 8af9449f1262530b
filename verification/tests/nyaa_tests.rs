use kisara::data::{Anime, Episode};
use kisara::error::KisaraError;
use kisara::nyaa_adapter::{
    episode_label, gather_results, search_keywords, search_url, torrent_from_cells, NyaaAdapter,
    NyaaAdapterFactory, RowCells, RowLink, MAX_PAGE_BYTES,
};
use kisara::torrent_adapters::{TorrentAdapter, TorrentAdapterFactory};

fn anime(name: &str, name_cn: &str, aliases: &[&str], keywords: &[&str]) -> Anime {
    Anime {
        id: 1,
        name: name.to_string(),
        aliases: aliases.iter().map(|s| s.to_string()).collect(),
        name_cn: name_cn.to_string(),
        image: String::new(),
        release_date: None,
        keywords: keywords.iter().map(|s| s.to_string()).collect(),
    }
}

fn episode(sort: i32, ep: Option<i32>) -> Episode {
    Episode {
        id: 10,
        anime_id: 1,
        sort,
        ep,
        name: String::new(),
        name_cn: String::new(),
        air_date: None,
        progress: 0,
        last_watch_time: None,
        torrent_id: None,
    }
}

fn row(name: &str, magnet: Option<&str>, seeders: &str) -> String {
    let magnet = match magnet {
        Some(m) => format!("<a href=\"{}\"><i class=\"fa fa-magnet\"></i></a>", m),
        None => String::new(),
    };
    format!(
        "<tr class=\"default\">\
         <td><a href=\"/?c=1_2\" title=\"Anime\">cat</a></td>\
         <td colspan=\"2\">\
         <a href=\"/view/{n}#comments\" class=\"comments\" title=\"2 comments\">2</a>\
         <a href=\"/view/{n}\" title=\"{n}\">{n}</a></td>\
         <td class=\"text-center\"><a href=\"/download/{n}.torrent\">t</a>{m}</td>\
         <td class=\"text-center\">1.3 GiB</td>\
         <td class=\"text-center\" data-timestamp=\"1\">2024-01-01 10:00</td>\
         <td class=\"text-center\">{s}</td>\
         <td class=\"text-center\">4</td>\
         <td class=\"text-center\">0</td>\
         </tr>",
        n = name,
        m = magnet,
        s = seeders
    )
}

fn page(rows: &[String]) -> String {
    format!(
        "<!DOCTYPE html><html><head><title>Nyaa</title></head><body>\
         <div class=\"table-responsive\"><table class=\"table torrent-list\">\
         <thead><tr><th>Category</th><th colspan=\"2\">Name</th><th>Link</th><th>Size</th>\
         <th>Date</th><th>S</th><th>L</th><th>C</th></tr></thead>\
         <tbody>{}</tbody></table></div></body></html>",
        rows.concat()
    )
}

#[test]
fn episode_numbers_below_ten_get_a_zero() {
    assert_eq!(episode_label(7), "07");
    assert_eq!(episode_label(12), "12");
    assert_eq!(episode_label(0), "00");
    assert_eq!(episode_label(1), "01");
    assert_eq!(episode_label(9), "09");
    assert_eq!(episode_label(10), "10");
    assert_eq!(episode_label(100), "100");
    assert_eq!(episode_label(1234), "1234");
}

#[test]
fn negative_episode_numbers_keep_their_sign_behind_the_zero() {
    assert_eq!(episode_label(-1), "0-1");
    assert_eq!(episode_label(-12), "0-12");
}

#[test]
fn keywords_are_made_once_each() {
    let anime = anime("Foo", "Foo CN", &["Foo", "Foo"], &[]);
    let keywords = search_keywords(&episode(1, Some(1)), &anime);
    assert_eq!(keywords, vec!["Foo \"01\"".to_string(), "Foo CN \"01\"".to_string()]);
}

#[test]
fn an_episode_without_a_number_is_searched_by_its_position() {
    let anime = anime("Foo", "Foo", &[], &[]);
    assert_eq!(search_keywords(&episode(13, None), &anime), vec!["Foo \"13\"".to_string()]);
    assert_eq!(search_keywords(&episode(13, Some(2)), &anime), vec!["Foo \"02\"".to_string()]);
}

#[test]
fn added_words_are_searched_as_names_are() {
    let anime = anime("Foo", "Bar", &["Baz"], &["1080p", "Baz"]);
    let keywords = search_keywords(&episode(3, Some(7)), &anime);
    assert_eq!(
        keywords,
        vec![
            "1080p \"07\"".to_string(),
            "Bar \"07\"".to_string(),
            "Baz \"07\"".to_string(),
            "Foo \"07\"".to_string(),
        ]
    );
}

#[test]
fn an_added_word_gives_one_keyword_beside_the_names() {
    let anime = anime("Foo", "Foo", &[], &["Bar"]);
    let keywords = search_keywords(&episode(1, Some(1)), &anime);
    assert_eq!(keywords, vec!["Bar \"01\"".to_string(), "Foo \"01\"".to_string()]);
}

#[test]
fn keywords_come_in_ascending_order() {
    let anime = anime("zeta", "alpha", &["Éclair", "Beta", "beta"], &[]);
    let keywords = search_keywords(&episode(1, Some(11)), &anime);
    let mut sorted = keywords.clone();
    sorted.sort();
    sorted.dedup();
    assert_eq!(keywords, sorted);
    assert_eq!(keywords.len(), 5);
}

#[test]
fn the_search_address_holds_the_keyword() {
    assert_eq!(
        search_url("Foo \"01\""),
        "https://nyaa.si/?f=0&c=1_0&q=Foo \"01\"&s=seeders&o=desc"
    );
    assert_eq!(search_url(""), "https://nyaa.si/?f=0&c=1_0&q=&s=seeders&o=desc");
}

#[test]
fn a_row_with_title_and_magnet_is_a_release() {
    let cells = RowCells {
        title: Some(RowLink { text: "[Sub] Foo - 01".to_string(), href: Some("/view/1".to_string()) }),
        magnet: Some("magnet:?xt=urn:btih:AAA".to_string()),
        size: Some("1.3 GiB".to_string()),
        date: Some("2024-01-01 10:00".to_string()),
        seeders: Some("12".to_string()),
        leechers: Some("3".to_string()),
    };
    let t = torrent_from_cells(cells).expect("a release");
    assert_eq!(t.name, "[Sub] Foo - 01");
    assert_eq!(t.url, Some("https://nyaa.si/view/1".to_string()));
    assert_eq!(t.magnet, "magnet:?xt=urn:btih:AAA");
    assert_eq!(t.size, Some("1.3 GiB".to_string()));
    assert_eq!(t.date, Some("2024-01-01 10:00".to_string()));
    assert_eq!(t.seeders, Some(12));
    assert_eq!(t.leechers, Some(3));
    assert_eq!(t.uploader, None);
}

#[test]
fn a_row_without_title_or_magnet_is_no_release() {
    let no_title = RowCells {
        title: None,
        magnet: Some("magnet:?x".to_string()),
        size: None,
        date: None,
        seeders: None,
        leechers: None,
    };
    assert!(torrent_from_cells(no_title).is_none());
    let no_magnet = RowCells {
        title: Some(RowLink { text: "name".to_string(), href: None }),
        magnet: None,
        size: None,
        date: None,
        seeders: Some("1".to_string()),
        leechers: None,
    };
    assert!(torrent_from_cells(no_magnet).is_none());
}

#[test]
fn missing_cells_and_bad_counts_are_left_out() {
    let cells = RowCells {
        title: Some(RowLink { text: "name".to_string(), href: None }),
        magnet: Some("magnet:?x".to_string()),
        size: None,
        date: None,
        seeders: Some("many".to_string()),
        leechers: Some("4294967296".to_string()),
    };
    let t = torrent_from_cells(cells).expect("a release");
    assert_eq!(t.url, None);
    assert_eq!(t.size, None);
    assert_eq!(t.date, None);
    assert_eq!(t.seeders, None);
    assert_eq!(t.leechers, None);
}

#[test]
fn a_result_page_is_read_row_by_row() {
    let html = page(&[
        row("first", Some("magnet:?xt=urn:btih:AAA"), "3"),
        row("second", Some("magnet:?xt=urn:btih:BBB"), "10"),
    ]);
    let found = NyaaAdapter::parse(&html).expect("a page");
    assert_eq!(found.len(), 2);
    assert_eq!(found[0].name, "first");
    assert_eq!(found[0].url, Some("https://nyaa.si/view/first".to_string()));
    assert_eq!(found[0].magnet, "magnet:?xt=urn:btih:AAA");
    assert_eq!(found[0].size, Some("1.3 GiB".to_string()));
    assert_eq!(found[0].date, Some("2024-01-01 10:00".to_string()));
    assert_eq!(found[0].seeders, Some(3));
    assert_eq!(found[0].leechers, Some(4));
    assert_eq!(found[0].uploader, None);
    assert_eq!(found[1].name, "second");
    assert_eq!(found[1].seeders, Some(10));
}

#[test]
fn rows_without_a_magnet_link_are_passed_over() {
    let html = page(&[
        row("no magnet", None, "3"),
        row("kept", Some("magnet:?xt=urn:btih:CCC"), "-"),
    ]);
    let found = NyaaAdapter::parse(&html).expect("a page");
    assert_eq!(found.len(), 1);
    assert_eq!(found[0].name, "kept");
    assert_eq!(found[0].seeders, None);
}

#[test]
fn a_page_without_rows_holds_no_release() {
    let found = NyaaAdapter::parse(&page(&[])).expect("a page");
    assert!(found.is_empty());
}

#[test]
fn a_page_without_the_result_table_is_an_error() {
    for html in ["<html><body><p>No results found</p></body></html>", "", "<table><tr><td>x</td></tr></table>"] {
        match NyaaAdapter::parse(html) {
            Err(KisaraError::HtmlParseError(why)) => {
                assert_eq!(why, "Failed to select table.torrent-list")
            }
            other => panic!("unexpected result {:?}", other),
        }
    }
}

#[test]
fn results_are_gathered_ranked_and_freed_of_repeats() {
    let first = page(&[
        row("three", Some("magnet:?xt=urn:btih:3"), "3"),
        row("none", Some("magnet:?xt=urn:btih:0"), "-"),
    ]);
    let second = page(&[
        row("ten", Some("magnet:?xt=urn:btih:10"), "10"),
        row("three again", Some("magnet:?xt=urn:btih:3"), "99"),
    ]);
    let pages = vec![Some(first), None, Some("<html>broken</html>".to_string()), Some(second)];
    let found = gather_results(&pages);
    let names: Vec<&str> = found.iter().map(|t| t.name.as_str()).collect();
    assert_eq!(names, vec!["ten", "three", "none"]);
    let seeds: Vec<Option<u32>> = found.iter().map(|t| t.seeders).collect();
    assert_eq!(seeds, vec![Some(10), Some(3), None]);
}

#[test]
fn nothing_is_gathered_from_nothing() {
    assert!(gather_results(&Vec::new()).is_empty());
    assert!(gather_results(&vec![None, None]).is_empty());
}

#[test]
fn the_nyaa_source_asks_for_one_page_per_keyword() {
    let anime = anime("Foo", "Foo CN", &["Foo"], &[]);
    let ep = episode(1, Some(1));
    let factory = NyaaAdapterFactory::new();
    assert_eq!(factory.source_name(), "Nyaa");
    assert_eq!(factory.priority(), 0);
    let adapter = factory.create_adapter(&ep, &anime);
    assert_eq!(
        adapter.requests(1),
        vec![
            "https://nyaa.si/?f=0&c=1_0&q=Foo \"01\"&s=seeders&o=desc".to_string(),
            "https://nyaa.si/?f=0&c=1_0&q=Foo CN \"01\"&s=seeders&o=desc".to_string(),
        ]
    );
    let html = page(&[row("one", Some("magnet:?xt=urn:btih:1"), "1")]);
    let found = adapter.search(1, &vec![Some(html), None]).expect("a search never fails");
    assert_eq!(found.len(), 1);
    assert_eq!(found[0].name, "one");
}

#[test]
fn pages_up_to_four_gibibytes_are_parsed() {
    assert_eq!(MAX_PAGE_BYTES as u64, u32::MAX as u64);
}
