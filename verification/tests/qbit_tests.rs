use kisara::classify::{ClassifyAction, ClassifyEvent, TorrentFileEntry};
use kisara::error::KisaraError;
use kisara::events::{Event, TorrentComplete, TorrentInit};
use kisara::qbit::{
    parse_torrent_id, torrent_id_text, torrent_is_present, Notice, QbitClient, TorrentStatus,
    Watch, WatchKind,
};

fn status(id: usize, finished: bool) -> TorrentStatus {
    TorrentStatus { id, finished }
}

#[test]
fn a_torrent_is_named_by_its_number() {
    assert_eq!(torrent_id_text(0), "0");
    assert_eq!(torrent_id_text(17), "17");
    assert_eq!(torrent_id_text(usize::MAX), usize::MAX.to_string());
}

#[test]
fn a_torrent_identifier_is_read_back() {
    assert!(matches!(parse_torrent_id("0"), Ok(0)));
    assert!(matches!(parse_torrent_id("17"), Ok(17)));
    assert!(matches!(parse_torrent_id("+17"), Ok(17)));
    let max = usize::MAX.to_string();
    assert!(matches!(parse_torrent_id(&max), Ok(usize::MAX)));
    for id in [0usize, 5, 1234567] {
        assert!(matches!(parse_torrent_id(&torrent_id_text(id)), Ok(n) if n == id));
    }
}

#[test]
fn an_identifier_that_is_no_number_names_no_torrent() {
    let too_large = "99999999999999999999999999";
    for id in ["", "abc", "-1", "1.5", " 7", "+", too_large] {
        match parse_torrent_id(id) {
            Err(KisaraError::NoSuchTorrent(named)) => assert_eq!(named, id),
            other => panic!("unexpected result {:?} on {:?}", other, id),
        }
    }
}

#[test]
fn a_malformed_identifier_is_reported_as_an_unknown_torrent() {
    let e = parse_torrent_id("abc").expect_err("no number");
    assert_eq!(e.message(), "No such episode with torrent ID: abc");
}

#[test]
fn unfinished_torrents_are_watched_again_after_a_restart() {
    let recovered = vec![status(1, true), status(2, false), status(5, false), status(7, true)];
    let (_, watches) = QbitClient::new("/dl", &recovered);
    assert_eq!(
        watches,
        vec![
            Watch { torrent: 2, kind: WatchKind::Completed },
            Watch { torrent: 5, kind: WatchKind::Completed },
        ]
    );
    let (_, watches) = QbitClient::new("/dl", &Vec::new());
    assert!(watches.is_empty());
}

#[test]
fn an_added_torrent_gets_both_watchers() {
    let (client, _) = QbitClient::new("/dl", &Vec::new());
    let (id, watches) = client.add_torrent(4);
    assert_eq!(id, "4");
    assert_eq!(
        watches,
        vec![
            Watch { torrent: 4, kind: WatchKind::Initialized },
            Watch { torrent: 4, kind: WatchKind::Completed },
        ]
    );
    assert_eq!(client.start_new_wait_init(9), Watch { torrent: 9, kind: WatchKind::Initialized });
    assert_eq!(
        client.start_new_wait_complete(9),
        Watch { torrent: 9, kind: WatchKind::Completed }
    );
}

#[test]
fn without_observers_a_watcher_tells_nothing() {
    let (client, _) = QbitClient::new("/dl", &Vec::new());
    let watch = client.start_new_wait_complete(3);
    assert!(client.watch_ended(watch, Some("Foo".to_string()), true).is_empty());
}

#[test]
fn a_failed_wait_tells_nothing() {
    let (mut client, _) = QbitClient::new("/dl", &Vec::new());
    client.set_app();
    let watch = client.start_new_wait_complete(3);
    assert!(client.watch_ended(watch, Some("Foo".to_string()), false).is_empty());
    let watch = client.start_new_wait_init(3);
    assert!(client.watch_ended(watch, None, false).is_empty());
}

#[test]
fn known_files_are_announced_to_the_observers() {
    let (mut client, _) = QbitClient::new("/dl", &Vec::new());
    client.set_app();
    let notices = client.watch_ended(client.start_new_wait_init(3), None, true);
    assert_eq!(notices.len(), 1);
    match &notices[0] {
        Notice::Init(event) => {
            assert_eq!(event.id, "3");
            assert_eq!(event.name(), "torrent-init");
        }
        other => panic!("unexpected notice {:?}", other),
    }
}

#[test]
fn a_complete_download_is_announced_to_observers_and_user() {
    let (mut client, _) = QbitClient::new("/dl", &Vec::new());
    client.set_app();
    let notices =
        client.watch_ended(client.start_new_wait_complete(8), Some("Foo - 01".to_string()), true);
    assert_eq!(notices.len(), 2);
    match &notices[0] {
        Notice::Complete(event) => {
            assert_eq!(event.id, "8");
            assert_eq!(event.name(), "torrent-complete");
        }
        other => panic!("unexpected notice {:?}", other),
    }
    match &notices[1] {
        Notice::Message { title, body } => {
            assert_eq!(title, "Download Complete");
            assert_eq!(body, "Torrent Foo - 01 has completed downloading");
        }
        other => panic!("unexpected notice {:?}", other),
    }
    let notices = client.watch_ended(client.start_new_wait_complete(8), None, true);
    match &notices[1] {
        Notice::Message { body, .. } => assert_eq!(body, "Torrent  has completed downloading"),
        other => panic!("unexpected notice {:?}", other),
    }
}

#[test]
fn events_keep_their_identifier() {
    assert_eq!(TorrentInit::new("3".to_string()).id, "3");
    assert_eq!(TorrentComplete::new("4".to_string()).id, "4");
}

#[test]
fn unfinished_torrents_are_counted() {
    let (client, _) = QbitClient::new("/dl", &Vec::new());
    assert_eq!(client.get_downloading_torrents(&Vec::new()), 0);
    let torrents = vec![status(1, true), status(2, false), status(3, false), status(4, true)];
    assert_eq!(client.get_downloading_torrents(&torrents), 2);
    let torrents = vec![status(1, true)];
    assert_eq!(client.get_downloading_torrents(&torrents), 0);
}

#[test]
fn files_of_an_unknown_torrent_are_not_resolved() {
    let (client, _) = QbitClient::new("/dl", &Vec::new());
    match client.get_files(21, None) {
        Err(KisaraError::NoSuchTorrent(id)) => assert_eq!(id, "21"),
        Ok(_) => panic!("a classifier for an unknown torrent"),
        Err(other) => panic!("unexpected error {:?}", other),
    }
}

#[test]
fn files_of_a_known_torrent_are_resolved_below_the_download_folder() {
    let (client, _) = QbitClient::new("/dl", &Vec::new());
    let files = vec![TorrentFileEntry { relative_filename: "show/readme.txt".to_string(), len: 3 }];
    let classifier = client.get_files(21, Some(files)).expect("a classifier");
    let (classifier, action) = classifier.advance(ClassifyEvent::Started);
    assert!(
        matches!(action, ClassifyAction::ReadHead { ref path, .. } if path == "/dl/show/readme.txt")
    );
    let (_, action) = classifier.advance(ClassifyEvent::Head(b"hello".to_vec()));
    assert!(matches!(
        action,
        ClassifyAction::Finished(Err(KisaraError::NoVideoFoundInTorrent(ref id))) if id == "21"
    ));
}

#[test]
fn a_recorded_torrent_is_present_while_the_engine_knows_it() {
    assert_eq!(torrent_is_present(Some("3".to_string()), true), (Some("3".to_string()), false));
    assert_eq!(torrent_is_present(Some("3".to_string()), false), (None, true));
    assert_eq!(torrent_is_present(None, false), (None, false));
    assert_eq!(torrent_is_present(None, true), (None, false));
}
