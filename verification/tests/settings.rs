use dtan_server::address::{Endpoint, Ipv4};
use dtan_server::filters::{
    accepts_kind, content_filter, related_filter, KIND_COMMENT, KIND_METADATA, KIND_RELAY_LIST,
    KIND_TORRENT, KIND_TORRENT_COMMENT, KIND_ZAP_RECEIPT, RELATED_LIMIT,
};
use dtan_server::notifications::reports_save_error;
use dtan_server::running::{after_query, after_start, after_tick, RunAction};
use dtan_server::settings::{config_path, Settings};
use dtan_server::DEFAULT_RELAY_PORT;
use nostr_sdk::Kind;

fn silent() -> Settings {
    Settings {
        database_dir: None,
        relays: vec![],
        listen: None,
        dht_public_ip: None,
        web_dir: None,
        use_dht: None,
        distinct_info_hash: None,
        relay_document: "{}".to_string(),
    }
}

#[test]
fn silent_settings() {
    let settings = silent();
    assert_eq!(settings.database_path(), "./data");
    assert_eq!(settings.web_path(), "www");
    assert_eq!(settings.local_port(), DEFAULT_RELAY_PORT);
    assert_eq!(DEFAULT_RELAY_PORT, 7777);
    let endpoint = settings.listen_endpoint();
    assert_eq!(endpoint.port(), 7777);
    assert!(matches!(endpoint, Endpoint::V4 { ip: Ipv4 { a: 127, b: 0, c: 0, d: 1 }, port: 7777 }));
    assert!(settings.uses_dht());
    assert!(!settings.wants_distinct_info_hash());
    assert_eq!(config_path(&None), "./config.yml");
}

#[test]
fn explicit_settings() {
    let settings = Settings {
        database_dir: Some("/var/events".to_string()),
        listen: Some(Endpoint::V6 {
            segments: [0xfe80, 0, 0, 0, 0, 0, 0, 1],
            port: 8000,
            flowinfo: 0,
            scope_id: 2,
        }),
        web_dir: Some("./www".to_string()),
        use_dht: Some(false),
        distinct_info_hash: Some(true),
        ..silent()
    };
    assert_eq!(settings.database_path(), "/var/events");
    assert_eq!(settings.web_path(), "./www");
    assert_eq!(settings.local_port(), 8000);
    assert!(matches!(
        settings.listen_endpoint(),
        Endpoint::V6 { segments: [0xfe80, 0, 0, 0, 0, 0, 0, 1], port: 8000, flowinfo: 0, scope_id: 2 }
    ));
    assert!(!settings.uses_dht());
    assert!(settings.wants_distinct_info_hash());
    assert!(Settings { use_dht: Some(true), ..silent() }.uses_dht());
    assert!(!Settings { distinct_info_hash: Some(false), ..silent() }.wants_distinct_info_hash());
    assert_eq!(config_path(&Some("/etc/dtan.yml".to_string())), "/etc/dtan.yml");
}

#[test]
fn kinds_have_their_numbers() {
    assert_eq!(KIND_TORRENT, Kind::Torrent.as_u16());
    assert_eq!(KIND_TORRENT_COMMENT, Kind::TorrentComment.as_u16());
    assert_eq!(KIND_METADATA, Kind::Metadata.as_u16());
    assert_eq!(KIND_RELAY_LIST, Kind::RelayList.as_u16());
    assert_eq!(KIND_COMMENT, Kind::Comment.as_u16());
    assert_eq!(KIND_ZAP_RECEIPT, Kind::ZapReceipt.as_u16());
}

#[test]
fn filters_ask_for_what_is_accepted() {
    let content = content_filter();
    assert_eq!(content.kinds, vec![2003, 2004, 0, 10002]);
    assert_eq!(content.tag, None);
    assert_eq!(content.limit, None);
    let related = related_filter(Some(RELATED_LIMIT));
    assert_eq!(related.kinds, vec![1111, 9735]);
    assert_eq!(related.tag, Some(('K', Kind::Torrent.to_string())));
    assert_eq!(related.tag, Some(('K', "2003".to_string())));
    assert_eq!(related.limit, Some(10));
    assert_eq!(related_filter(None).limit, None);
    for kind in 0..=u16::MAX {
        assert_eq!(accepts_kind(kind), content.kinds.contains(&kind) || related.kinds.contains(&kind));
    }
}

#[test]
fn saving_an_event_twice_is_no_error() {
    assert!(!reports_save_error("duplicate"));
    assert!(!reports_save_error("LMDB: duplicate key"));
    assert!(!reports_save_error("\u{fc}duplicate\u{fc}"));
    assert!(reports_save_error(""));
    assert!(reports_save_error("Duplicate key"));
    assert!(reports_save_error("duplicat"));
    assert!(reports_save_error("dupliduplicat"));
}

#[test]
fn ticks_go_on_until_one_fails() {
    assert_eq!(after_start(false), RunAction::TickAfter(0));
    assert_eq!(after_start(true), RunAction::Stop);
    assert_eq!(after_tick(false), RunAction::TickAfter(300));
    assert_eq!(after_tick(true), RunAction::Stop);
}

#[test]
fn the_database_is_asked_until_it_answers() {
    assert_eq!(after_query(true), None);
    assert_eq!(after_query(false), Some(1));
}
