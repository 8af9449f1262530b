use kisara::release::{clone_text, dedup_by_magnet, rank_by_seeders, TorrentInfo};

fn release(name: &str, magnet: &str, seeders: Option<u32>) -> TorrentInfo {
    TorrentInfo {
        name: name.to_string(),
        size: None,
        url: None,
        magnet: magnet.to_string(),
        date: None,
        seeders,
        leechers: None,
        uploader: None,
    }
}

fn names(list: &[TorrentInfo]) -> Vec<String> {
    list.iter().map(|t| t.name.clone()).collect()
}

#[test]
fn releases_are_ranked_by_their_seeders() {
    let list = vec![
        release("three", "magnet:?xt=3", Some(3)),
        release("none", "magnet:?xt=0", None),
        release("ten", "magnet:?xt=10", Some(10)),
    ];
    let ranked = rank_by_seeders(&list);
    assert_eq!(names(&ranked), vec!["ten", "three", "none"]);
    let seeds: Vec<Option<u32>> = ranked.iter().map(|t| t.seeders).collect();
    assert_eq!(seeds, vec![Some(10), Some(3), None]);
}

#[test]
fn a_release_without_seeders_counts_as_zero() {
    let list = vec![
        release("none", "m1", None),
        release("one", "m2", Some(1)),
        release("zero", "m3", Some(0)),
    ];
    let ranked = rank_by_seeders(&list);
    assert_eq!(ranked[0].name, "one");
    assert_eq!(ranked.len(), 3);
    assert!(ranked[1..].iter().all(|t| t.seeders.unwrap_or(0) == 0));
}

#[test]
fn ranking_keeps_every_release() {
    let list = vec![
        release("a", "m1", Some(5)),
        release("b", "m2", Some(5)),
        release("c", "m3", Some(7)),
        release("d", "m4", None),
        release("e", "m5", Some(u32::MAX)),
    ];
    let ranked = rank_by_seeders(&list);
    let mut got = names(&ranked);
    got.sort();
    assert_eq!(got, vec!["a", "b", "c", "d", "e"]);
    for pair in ranked.windows(2) {
        assert!(pair[0].seeders.unwrap_or(0) >= pair[1].seeders.unwrap_or(0));
    }
    assert_eq!(rank_by_seeders(&Vec::new()).len(), 0);
}

#[test]
fn of_releases_with_one_magnet_link_the_first_is_kept() {
    let list = vec![
        release("first", "m1", Some(1)),
        release("other", "m2", Some(2)),
        release("again", "m1", Some(9)),
        release("third", "m3", None),
        release("once more", "m2", None),
    ];
    let kept = dedup_by_magnet(&list);
    assert_eq!(names(&kept), vec!["first", "other", "third"]);
    assert_eq!(dedup_by_magnet(&Vec::new()).len(), 0);
}

#[test]
fn a_copy_of_a_release_holds_the_same() {
    let mut one = release("name", "magnet", Some(4));
    one.size = Some("1.2 GiB".to_string());
    one.url = Some("https://nyaa.si/view/1".to_string());
    one.date = Some("2024-01-01 10:00".to_string());
    one.leechers = Some(2);
    one.uploader = Some("someone".to_string());
    let copy = one.clone();
    assert_eq!(copy.name, one.name);
    assert_eq!(copy.size, one.size);
    assert_eq!(copy.url, one.url);
    assert_eq!(copy.magnet, one.magnet);
    assert_eq!(copy.date, one.date);
    assert_eq!(copy.seeders, one.seeders);
    assert_eq!(copy.leechers, one.leechers);
    assert_eq!(copy.uploader, one.uploader);
    assert_eq!(clone_text(&None), None);
    assert_eq!(clone_text(&Some("x".to_string())), Some("x".to_string()));
}

#[test]
fn equally_seeded_releases_keep_their_order() {
    let list = vec![
        release("b", "m1", Some(5)),
        release("z", "m2", None),
        release("a", "m3", Some(5)),
        release("y", "m4", Some(0)),
        release("c", "m5", Some(5)),
        release("x", "m6", None),
    ];
    assert_eq!(names(&rank_by_seeders(&list)), vec!["b", "a", "c", "z", "y", "x"]);
}
