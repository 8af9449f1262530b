use chrono::NaiveDate;
use kisara::config::{DebugConfig, DownloadConfig, KisaraConfig, LogLevelFilter, NetworkConfig};
use kisara::data::{
    aliases_from_infobox, following_offsets, page_window, search_address, search_suggestions,
    Anime, AnimeSearchResultItemImages, AnimeTag, Episode, EpisodeSearchResultItem, Paginated,
    SortType,
};

fn item(air_date: &str) -> EpisodeSearchResultItem {
    EpisodeSearchResultItem {
        id: 7,
        name: "name".to_string(),
        name_cn: "名".to_string(),
        sort: 13,
        ep: Some(1),
        air_date: air_date.to_string(),
    }
}

fn page_of(total: u32, limit: u32, offset: u32) -> Paginated<AnimeTag> {
    Paginated { total, limit, offset, data: vec![AnimeTag { name: "tag".to_string(), count: 1 }] }
}

fn config(proxy: Option<&str>, enabled: bool) -> KisaraConfig {
    KisaraConfig {
        download_config: DownloadConfig { download_path: "/dl".to_string() },
        network_config: NetworkConfig {
            bgm_proxy: proxy.map(|p| p.to_string()),
            torrents_proxy: proxy.map(|p| format!("{}/t", p)),
            bgm_proxy_enabled: enabled,
            torrents_proxy_enabled: enabled,
        },
        locale: "zh".to_string(),
        debug_config: DebugConfig::default(),
    }
}

#[test]
fn sort_orders_have_their_words() {
    assert_eq!(SortType::Match.name(), "match");
    assert_eq!(SortType::Heat.name(), "heat");
    assert_eq!(SortType::Rank.name(), "rank");
    assert_eq!(SortType::Score.name(), "score");
}

#[test]
fn an_episode_of_the_service_becomes_a_record() {
    let e = Episode::from_search_result(item("2024-01-07"), 99);
    assert_eq!(e.id, 7);
    assert_eq!(e.anime_id, 99);
    assert_eq!(e.sort, 13);
    assert_eq!(e.ep, Some(1));
    assert_eq!(e.name, "name");
    assert_eq!(e.name_cn, "名");
    assert_eq!(e.air_date, NaiveDate::from_ymd_opt(2024, 1, 7));
    assert_eq!(e.progress, 0);
    assert_eq!(e.last_watch_time, None);
    assert_eq!(e.torrent_id, None);
    assert_eq!(e.display_number(), 1);
}

#[test]
fn an_air_date_that_is_no_date_is_left_out() {
    assert_eq!(Episode::from_search_result(item(""), 1).air_date, None);
    assert_eq!(Episode::from_search_result(item("soon"), 1).air_date, None);
    assert_eq!(Episode::from_search_result(item("2024-02-30"), 1).air_date, None);
}

#[test]
fn an_episode_without_a_number_is_listed_by_its_position() {
    let mut it = item("2024-01-07");
    it.ep = None;
    assert_eq!(Episode::from_search_result(it, 1).display_number(), 13);
}

#[test]
fn suggestions_are_sorted_and_unique() {
    let names: Vec<String> = ["b", "a", "b", "", "c", "a"].iter().map(|s| s.to_string()).collect();
    assert_eq!(search_suggestions(&names), vec!["", "a", "b", "c"]);
    assert!(search_suggestions(&Vec::new()).is_empty());
}

#[test]
fn pages_are_counted_from_one() {
    assert_eq!(page_window(None, None), Some((0, 20)));
    assert_eq!(page_window(Some(1), Some(5)), Some((0, 5)));
    assert_eq!(page_window(Some(3), Some(5)), Some((10, 5)));
    assert_eq!(page_window(Some(2), None), Some((20, 20)));
    assert_eq!(page_window(Some(7), Some(0)), Some((0, 0)));
    assert_eq!(page_window(Some(u32::MAX), Some(1)), Some((u32::MAX - 1, 1)));
}

#[test]
fn there_is_no_page_zero_and_none_beyond_the_range() {
    assert_eq!(page_window(Some(0), None), None);
    assert_eq!(page_window(Some(0), Some(0)), None);
    assert_eq!(page_window(Some(u32::MAX), Some(2)), None);
    assert_eq!(page_window(Some(3), Some(u32::MAX)), None);
}

#[test]
fn the_search_address_holds_offset_and_limit() {
    assert_eq!(search_address(0, 20), "https://api.bgm.tv/v0/search/subjects?offset=0&limit=20");
    assert_eq!(
        search_address(40, 5),
        "https://api.bgm.tv/v0/search/subjects?offset=40&limit=5"
    );
}

#[test]
fn the_following_pages_are_asked_for_until_the_total() {
    assert_eq!(following_offsets(&page_of(250, 100, 0)), vec![100, 200]);
    assert_eq!(following_offsets(&page_of(200, 100, 0)), vec![100]);
    assert_eq!(following_offsets(&page_of(100, 100, 0)), Vec::<u32>::new());
    assert_eq!(following_offsets(&page_of(12, 100, 0)), Vec::<u32>::new());
    assert_eq!(following_offsets(&page_of(0, 100, 0)), Vec::<u32>::new());
    assert_eq!(following_offsets(&page_of(10, 3, 1)), vec![4, 7]);
}

#[test]
fn a_service_that_reports_empty_pages_is_not_asked_again() {
    assert_eq!(following_offsets(&page_of(50, 0, 0)), Vec::<u32>::new());
    assert_eq!(following_offsets(&page_of(u32::MAX, u32::MAX, u32::MAX)), Vec::<u32>::new());
}

#[test]
fn images_hold_their_addresses() {
    let images = AnimeSearchResultItemImages {
        large: "l".to_string(),
        common: "c".to_string(),
        medium: "m".to_string(),
        small: "s".to_string(),
        grid: "g".to_string(),
    };
    assert_eq!(images.common, "c");
}

#[test]
fn the_defaults_log_at_info_and_use_no_proxy() {
    assert_eq!(LogLevelFilter::default(), LogLevelFilter::Info);
    assert_eq!(DebugConfig::default().log_level, LogLevelFilter::Info);
    let network = NetworkConfig::default();
    assert_eq!(network.bgm_proxy, None);
    assert_eq!(network.torrents_proxy, None);
    assert!(!network.bgm_proxy_enabled);
    assert!(!network.torrents_proxy_enabled);
}

#[test]
fn log_levels_have_their_names() {
    assert_eq!(LogLevelFilter::Info.name(), "info");
    assert_eq!(LogLevelFilter::Debug.name(), "debug");
    assert_eq!(LogLevelFilter::Trace.name(), "trace");
    assert_eq!(LogLevelFilter::Warn.name(), "warn");
    assert_eq!(LogLevelFilter::Error.name(), "error");
}

#[test]
fn the_default_paths_depend_on_development() {
    assert_eq!(DownloadConfig::default_download_path(true), "../downloads");
    assert_eq!(DownloadConfig::default_download_path(false), "./downloads");
    assert_eq!(KisaraConfig::config_path(true), "../config.json");
    assert_eq!(KisaraConfig::config_path(false), "./config.json");
}

#[test]
fn the_verbatim_prefix_is_taken_off() {
    assert_eq!(DownloadConfig::strip_unc_prefix("\\\\?\\C:\\downloads"), "C:\\downloads");
    assert_eq!(DownloadConfig::strip_unc_prefix("C:\\downloads"), "C:\\downloads");
    assert_eq!(DownloadConfig::strip_unc_prefix("/home/me/downloads"), "/home/me/downloads");
    assert_eq!(DownloadConfig::strip_unc_prefix("\\\\?\\"), "");
    assert_eq!(DownloadConfig::strip_unc_prefix("\\\\?"), "\\\\?");
    assert_eq!(DownloadConfig::strip_unc_prefix(""), "");
}

#[test]
fn a_proxy_is_used_only_while_it_is_switched_on() {
    assert_eq!(config(Some("http://p"), true).bgm_proxy(), Some("http://p".to_string()));
    assert_eq!(config(Some("http://p"), true).torrents_proxy(), Some("http://p/t".to_string()));
    assert_eq!(config(Some("http://p"), false).bgm_proxy(), None);
    assert_eq!(config(Some("http://p"), false).torrents_proxy(), None);
    assert_eq!(config(None, true).bgm_proxy(), None);
    assert_eq!(config(None, true).torrents_proxy(), None);
}

#[test]
fn setting_a_proxy_keeps_the_old_one_unless_a_new_one_is_given() {
    let mut network = NetworkConfig::default();
    assert_eq!(network.set_bangumi_proxy(None, true), None);
    assert!(network.bgm_proxy_enabled);
    assert_eq!(network.set_bangumi_proxy(Some("http://a".to_string()), true), Some("http://a".to_string()));
    assert_eq!(network.set_bangumi_proxy(None, false), None);
    assert_eq!(network.bgm_proxy, Some("http://a".to_string()));
    assert!(!network.bgm_proxy_enabled);
    assert_eq!(network.set_bangumi_proxy(None, true), Some("http://a".to_string()));
    assert_eq!(network.torrents_proxy, None);
    assert!(!network.torrents_proxy_enabled);
    assert_eq!(network.set_torrents_proxy(Some("http://t".to_string()), false), None);
    assert_eq!(network.torrents_proxy, Some("http://t".to_string()));
    assert_eq!(network.set_torrents_proxy(Some("http://u".to_string()), true), Some("http://u".to_string()));
    assert_eq!(network.bgm_proxy, Some("http://a".to_string()));
    assert!(network.bgm_proxy_enabled);
}

#[test]
fn aliases_are_read_out_of_the_info_box() {
    let infobox: serde_json::Value = serde_json::from_str(
        r#"[{"key":"中文名","value":"某动画"},{"key":"别名","value":[{"v":"Foo"},{"v":"Foo 2"}]}]"#,
    )
    .expect("json");
    // the info box of the service is a list: it has no member of that name
    assert!(aliases_from_infobox(&infobox).is_empty());
    let infobox: serde_json::Value = serde_json::from_str(
        r#"{"别名":[{"v":"Foo"},{"k":"x"},"plain",{"v":7},{"v":"Foo 2","k":"y"},{"v":""}],"v":"no"}"#,
    )
    .expect("json");
    assert_eq!(aliases_from_infobox(&infobox), vec!["Foo", "Foo 2", ""]);
}

#[test]
fn an_info_box_without_an_alias_list_gives_no_aliases() {
    for text in ["null", "{}", r#"{"别名":"Foo"}"#, r#"{"别名":{"v":"Foo"}}"#, r#"{"别名":[]}"#, "\"别名\"", "3"] {
        let infobox: serde_json::Value = serde_json::from_str(text).expect("json");
        assert!(aliases_from_infobox(&infobox).is_empty(), "on {}", text);
    }
}

#[test]
fn an_anime_of_the_service_becomes_a_record() {
    let infobox: serde_json::Value =
        serde_json::from_str(r#"{"别名":[{"v":"Foo"}]}"#).expect("json");
    let anime = Anime::from_search_result(
        5,
        "name".to_string(),
        "名".to_string(),
        "https://img/c.jpg".to_string(),
        Some("2024-04-01".to_string()),
        &infobox,
    );
    assert_eq!(anime.id, 5);
    assert_eq!(anime.name, "name");
    assert_eq!(anime.name_cn, "名");
    assert_eq!(anime.image, "https://img/c.jpg");
    assert_eq!(anime.aliases, vec!["Foo"]);
    assert_eq!(anime.release_date, NaiveDate::from_ymd_opt(2024, 4, 1));
    assert!(anime.keywords.is_empty());
    let undated = Anime::from_search_result(
        5,
        String::new(),
        String::new(),
        String::new(),
        None,
        &serde_json::Value::Null,
    );
    assert_eq!(undated.release_date, None);
    let misdated = Anime::from_search_result(
        5,
        String::new(),
        String::new(),
        String::new(),
        Some("spring".to_string()),
        &serde_json::Value::Null,
    );
    assert_eq!(misdated.release_date, None);
}
