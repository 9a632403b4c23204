use dtan_server::policy::{Admission, Event, QueryOutcome, TorrentPolicy, WritePolicyResult};
use nostr_sdk::Kind;

fn tag(parts: &[&str]) -> Vec<String> {
    parts.iter().map(|p| p.to_string()).collect()
}

fn event(id: &str, kind: Kind, tags: &[&[&str]]) -> Event {
    Event::new(id.to_string(), kind.as_u16(), tags.iter().map(|t| tag(t)).collect()).unwrap()
}

fn rejected_with(result: &WritePolicyResult, message: &str) -> bool {
    matches!(result, WritePolicyResult::Reject(m) if m == message)
}

fn decided(admission: Admission) -> WritePolicyResult {
    match admission {
        Admission::Decided(result) => result,
        Admission::Query(_) => panic!("no query expected"),
    }
}

fn found(ids: &[&str]) -> QueryOutcome {
    QueryOutcome::Found(ids.iter().map(|i| i.to_string()).collect())
}

#[test]
fn test_duplicate_info_hash_logic_bug() {
    let info_hash = "abc123";
    let existing_events = vec![("event1", "abc123", "torrent1_content")];
    let new_event = ("event2", "abc123", "torrent2_different");
    let policy = TorrentPolicy::new(true);
    let torrent = event(new_event.0, Kind::Torrent, &[&["x", new_event.1], &["title", new_event.2]]);

    match policy.admit_event(&torrent) {
        Admission::Query(filter) => {
            assert_eq!(filter.kinds, vec![2003]);
            assert_eq!(filter.tag, Some(('x', info_hash.to_string())));
            assert_eq!(filter.limit, None);
        }
        Admission::Decided(_) => panic!("the database decides"),
    }
    let ids: Vec<&str> = existing_events.iter().filter(|e| e.1 == new_event.1).map(|e| e.0).collect();
    let result = TorrentPolicy::admit_found(&torrent, &found(&ids));

    let exists = rejected_with(&result, "duplicate info_hash");
    assert!(exists, "BUG: Different torrent with same info_hash triggers rejection");

    let is_same_event = matches!(result, WritePolicyResult::Accept);
    assert!(!is_same_event, "Different event should not be considered duplicate");
    let is_same_event = existing_events.iter().any(|e| e.0 == new_event.0);
    assert!(!is_same_event, "Different event should not be considered duplicate");
}

#[test]
fn the_same_torrent_may_be_sent_again() {
    let torrent = event("event1", Kind::Torrent, &[&["x", "abc123"]]);
    assert!(matches!(
        TorrentPolicy::admit_found(&torrent, &found(&["event0", "event1"])),
        WritePolicyResult::Accept
    ));
}

#[test]
fn the_first_torrent_with_an_info_hash_is_taken() {
    let torrent = event("event1", Kind::Torrent, &[&["x", "abc123"]]);
    assert!(matches!(TorrentPolicy::admit_found(&torrent, &found(&[])), WritePolicyResult::Accept));
}

#[test]
fn a_failing_database_keeps_torrents_out() {
    let torrent = event("event1", Kind::Torrent, &[&["x", "abc123"]]);
    let result = TorrentPolicy::admit_found(&torrent, &QueryOutcome::Failed);
    assert!(rejected_with(&result, "Internal server error (DB)"));
}

#[test]
fn a_torrent_needs_an_info_hash_where_hashes_are_distinct() {
    let policy = TorrentPolicy::new(true);
    for torrent in [
        event("e", Kind::Torrent, &[]),
        event("e", Kind::Torrent, &[&["X", "abc123"], &["title", "x"]]),
        event("e", Kind::Torrent, &[&["x"], &["x", "abc123"]]),
    ] {
        assert!(rejected_with(&decided(policy.admit_event(&torrent)), "Missing 'x' tag"));
    }
}

#[test]
fn the_first_x_tag_is_the_info_hash() {
    let torrent = event("e", Kind::Torrent, &[&["title", "t"], &["x", "h1", "more"], &["x", "h2"]]);
    assert_eq!(torrent.info_hash(), Some("h1".to_string()));
    assert_eq!(event("e", Kind::Torrent, &[&["title", "x"]]).info_hash(), None);
    assert_eq!(event("e", Kind::Torrent, &[&["x", ""]]).info_hash(), Some(String::new()));
}

#[test]
fn accepted_kinds_are_taken() {
    for distinct in [false, true] {
        let policy = TorrentPolicy::new(distinct);
        for kind in [
            Kind::TorrentComment,
            Kind::Metadata,
            Kind::RelayList,
            Kind::Comment,
            Kind::ZapReceipt,
        ] {
            let result = decided(policy.admit_event(&event("e", kind, &[])));
            assert!(matches!(result, WritePolicyResult::Accept));
        }
    }
    let result = decided(TorrentPolicy::new(false).admit_event(&event("e", Kind::Torrent, &[])));
    assert!(matches!(result, WritePolicyResult::Accept));
}

#[test]
fn other_kinds_are_refused() {
    for distinct in [false, true] {
        let policy = TorrentPolicy::new(distinct);
        for kind in [Kind::TextNote, Kind::ContactList, Kind::Reaction, Kind::Custom(2005), Kind::Custom(65535)] {
            let result = decided(policy.admit_event(&event("e", kind, &[&["x", "abc123"]])));
            assert!(rejected_with(&result, "kind not accepted"));
        }
    }
}

#[test]
fn an_event_has_no_empty_tag() {
    assert!(Event::new("e".to_string(), 2003, vec![tag(&["x", "h"]), vec![]]).is_none());
    assert!(Event::new("e".to_string(), 2003, vec![]).is_some());
}

/// Fills a database through the policy: of several torrents with an info hash one is kept.
#[test]
fn one_torrent_per_info_hash() {
    let policy = TorrentPolicy::new(true);
    let mut stored: Vec<(String, String)> = Vec::new();
    for (id, hash) in [("a", "h1"), ("b", "h2"), ("c", "h1"), ("a", "h1"), ("d", "h2"), ("e", "h3")] {
        let torrent = event(id, Kind::Torrent, &[&["x", hash]]);
        let outcome = match policy.admit_event(&torrent) {
            Admission::Query(filter) => {
                let value = filter.tag.unwrap().1;
                QueryOutcome::Found(stored.iter().filter(|s| s.1 == value).map(|s| s.0.clone()).collect())
            }
            Admission::Decided(_) => panic!("the database decides"),
        };
        if let WritePolicyResult::Accept = TorrentPolicy::admit_found(&torrent, &outcome) {
            if !stored.iter().any(|s| s.0 == id) {
                stored.push((id.to_string(), hash.to_string()));
            }
        }
    }
    let ids: Vec<&str> = stored.iter().map(|s| s.0.as_str()).collect();
    assert_eq!(ids, vec!["a", "b", "e"]);
}
