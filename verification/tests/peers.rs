use dtan_server::address::{Endpoint, Ipv4, PeerAddr};
use dtan_server::peers::{PeerManager, ProbeOutput, StartAction, TickAction};
use dtan_server::settings::Settings;

fn settings() -> Settings {
    Settings {
        database_dir: None,
        relays: vec![],
        listen: None,
        dht_public_ip: None,
        web_dir: None,
        use_dht: None,
        distinct_info_hash: None,
        relay_document: "{}".to_string(),
    }
}

fn listening_on(port: u16) -> Settings {
    Settings { listen: Some(Endpoint::V4 { ip: ip(0, 0, 0, 0), port }), ..settings() }
}

fn ip(a: u8, b: u8, c: u8, d: u8) -> Ipv4 {
    Ipv4 { a, b, c, d }
}

fn peer(a: u8, b: u8, c: u8, d: u8, port: u16) -> PeerAddr {
    PeerAddr { ip: ip(a, b, c, d), port }
}

const NO_PROBE: ProbeOutput = ProbeOutput { upnp: false, pcp: false, nat_pmp: false };

/// Runs a tick to its end: `reply` says whether a relay is added. Gives the relays that were
/// offered and the relays of the sync.
fn run(
    manager: &mut PeerManager,
    found: &Vec<PeerAddr>,
    public_ip: Option<Ipv4>,
    reply: impl Fn(&str) -> bool,
) -> (Vec<String>, Option<Vec<String>>) {
    manager.tick(found, public_ip);
    let mut offered = Vec::new();
    let mut synced = None;
    loop {
        match manager.next_step() {
            TickAction::AddRelay(url) => {
                let added = reply(&url);
                offered.push(url);
                manager.relay_added(added);
            }
            TickAction::WaitForSync => manager.sync_finished(),
            TickAction::Sync(urls) => synced = Some(urls),
            TickAction::Done => return (offered, synced),
        }
    }
}

#[test]
fn test_no_peer_deduplication_tracking() {
    let mut connected_peers: Vec<String> = Vec::new();
    let peer1 = "ws://192.168.1.100:7777".to_string();
    connected_peers.push(peer1.clone());
    connected_peers.push(peer1.clone());
    assert_eq!(connected_peers.len(), 2, "BUG: Same peer added multiple times without deduplication");

    let mut manager = PeerManager::new(settings());
    let found = vec![peer(192, 168, 1, 100, 7777), peer(192, 168, 1, 100, 7777)];
    assert_eq!(found.len(), connected_peers.len());
    let (offered, synced) = run(&mut manager, &found, None, |_| true);
    assert_eq!(offered, vec![peer1.clone()]);
    assert_eq!(synced, Some(vec![peer1.clone()]));
    let (offered, synced) = run(&mut manager, &found, None, |_| true);
    assert!(offered.is_empty());
    assert_eq!(synced, None);
    assert_eq!(manager.connected_count(), 1);
    assert!(manager.is_connected(&peer1));
}

#[test]
fn test_no_port_mapping_fallback_timeout() {
    let portmapper_available = false;
    let local_port = 7777u16;
    let mut manager = PeerManager::new(settings());
    let probe = ProbeOutput { nat_pmp: portmapper_available, ..NO_PROBE };
    assert!(matches!(manager.start(), StartAction::Probe));
    assert!(matches!(manager.probed(Some(probe)), StartAction::FallBackAfter(30)));

    let announce_port: Option<u16> = manager.external_port();
    assert!(announce_port.is_none(), "BUG: No fallback when portmapper unavailable");

    manager.port_mapping_timed_out();
    assert_eq!(manager.external_port(), Some(local_port));
    assert_eq!(manager.port_mapping_elapsed(), 30);
    assert_eq!(manager.announce_peer().port, local_port);
}

#[test]
fn test_no_peer_ranking() {
    let peers = vec![
        ("ws://192.168.1.1:7777".to_string(), 0.1),
        ("ws://192.168.1.2:7777".to_string(), 0.9),
        ("ws://192.168.1.3:7777".to_string(), 0.5),
    ];
    let found = vec![
        peer(192, 168, 1, 1, 7777),
        peer(192, 168, 1, 2, 7777),
        peer(192, 168, 1, 3, 7777),
    ];
    let mut manager = PeerManager::new(settings());
    let (connected_peers, synced) = run(&mut manager, &found, None, |_| true);

    assert_eq!(connected_peers.len(), 3, "BUG: All peers connected without quality ranking");
    let names: Vec<String> = peers.iter().map(|(p, _)| p.clone()).collect();
    assert_eq!(connected_peers, names);
    assert_eq!(synced, Some(names));
    assert_eq!(manager.connected_count(), 3);
}

#[test]
fn info_hash_of_the_archive() {
    let announcement = PeerManager::new(settings()).announce_peer();
    assert_eq!(
        announcement.info_hash,
        [237, 242, 222, 113, 70, 80, 208, 155, 5, 181, 22, 137, 248, 29, 98, 100, 9, 106, 18, 7]
    );
    assert_eq!(announcement.port, 7777);
}

#[test]
fn explicit_public_address_needs_no_probe() {
    let manager = PeerManager::new(Settings { dht_public_ip: Some(ip(140, 140, 140, 140)), ..settings() });
    assert!(matches!(manager.start(), StartAction::FallBackAfter(30)));
}

#[test]
fn any_way_to_map_a_port_will_do() {
    let manager = PeerManager::new(listening_on(8000));
    for probe in [
        ProbeOutput { upnp: true, ..NO_PROBE },
        ProbeOutput { pcp: true, ..NO_PROBE },
        ProbeOutput { nat_pmp: true, ..NO_PROBE },
    ] {
        assert!(matches!(manager.probed(Some(probe)), StartAction::MapPort(8000)));
    }
    assert!(matches!(manager.probed(Some(NO_PROBE)), StartAction::FallBackAfter(30)));
    assert!(matches!(manager.probed(None), StartAction::FallBackAfter(30)));
}

#[test]
fn announced_port() {
    let mut manager = PeerManager::new(listening_on(8000));
    assert_eq!(manager.announce_peer().port, 8000);
    manager.external_address_changed(None);
    assert_eq!(manager.announce_peer().port, 8000);
    manager.external_address_changed(Some(40000));
    assert_eq!(manager.announce_peer().port, 40000);
    manager.external_address_changed(None);
    assert_eq!(manager.announce_peer().port, 40000);
    manager.external_address_changed(Some(40001));
    assert_eq!(manager.announce_peer().port, 40001);
    manager.port_mapping_timed_out();
    assert_eq!(manager.announce_peer().port, 8000);
}

#[test]
fn own_address_is_left_out() {
    let mut manager = PeerManager::new(settings());
    let found = vec![peer(1, 2, 3, 4, 7777), peer(1, 2, 3, 5, 7777), peer(1, 2, 3, 4, 9999)];
    let (offered, _) = run(&mut manager, &found, Some(ip(1, 2, 3, 4)), |_| true);
    assert_eq!(offered, vec!["ws://1.2.3.5:7777".to_string()]);
    let own = vec![peer(1, 2, 3, 4, 1), peer(1, 2, 3, 4, 2)];
    assert!(run(&mut manager, &own, Some(ip(1, 2, 3, 4)), |_| true).0.is_empty());
}

#[test]
fn default_port_is_left_out_of_a_relay_address() {
    let mut manager = PeerManager::new(settings());
    let found = vec![peer(1, 2, 3, 4, 80), peer(255, 255, 255, 255, 65535), peer(0, 0, 0, 0, 0)];
    let (offered, _) = run(&mut manager, &found, None, |_| true);
    assert_eq!(offered, vec!["ws://1.2.3.4", "ws://255.255.255.255:65535", "ws://0.0.0.0:0"]);
}

#[test]
fn only_added_relays_are_synced_and_remembered() {
    let mut manager = PeerManager::new(settings());
    let found = vec![peer(1, 1, 1, 1, 10), peer(2, 2, 2, 2, 20), peer(3, 3, 3, 3, 30)];
    let (offered, synced) = run(&mut manager, &found, None, |url| !url.contains("2.2.2.2"));
    assert_eq!(offered.len(), 3);
    assert_eq!(synced, Some(vec!["ws://1.1.1.1:10".to_string(), "ws://3.3.3.3:30".to_string()]));
    assert_eq!(manager.connected_count(), 2);
    assert!(!manager.is_connected(&"ws://2.2.2.2:20".to_string()));
    let (offered, synced) = run(&mut manager, &found, None, |_| false);
    assert_eq!(offered, vec!["ws://2.2.2.2:20".to_string()]);
    assert_eq!(synced, None);
}

#[test]
fn no_more_than_three_syncs_run() {
    let mut manager = PeerManager::new(settings());
    for i in 0..3u8 {
        manager.tick(&vec![peer(10, 0, 0, i, 1)], None);
        assert!(matches!(manager.next_step(), TickAction::AddRelay(_)));
        manager.relay_added(true);
        assert!(matches!(manager.next_step(), TickAction::Sync(_)));
        assert!(matches!(manager.next_step(), TickAction::Done));
        assert_eq!(manager.running_syncs(), usize::from(i) + 1);
    }
    manager.tick(&vec![peer(10, 0, 0, 9, 1)], None);
    assert!(matches!(manager.next_step(), TickAction::WaitForSync));
    assert!(matches!(manager.next_step(), TickAction::WaitForSync));
    manager.sync_finished();
    assert!(matches!(manager.next_step(), TickAction::AddRelay(url) if url == "ws://10.0.0.9:1"));
    manager.relay_added(true);
    assert!(matches!(manager.next_step(), TickAction::Sync(_)));
    assert_eq!(manager.running_syncs(), 3);
}

#[test]
fn a_tick_without_peers_does_nothing() {
    let mut manager = PeerManager::new(settings());
    assert_eq!(run(&mut manager, &vec![], None, |_| true), (vec![], None));
    assert_eq!(manager.connected_count(), 0);
    assert_eq!(manager.running_syncs(), 0);
}

#[test]
fn websocket_addresses() {
    assert_eq!(peer(192, 168, 0, 1, 7777).ws_address(), "ws://192.168.0.1:7777");
    assert_eq!(peer(0, 10, 100, 255, 0).ws_address(), "ws://0.10.100.255:0");
    assert_ne!(peer(1, 11, 1, 1, 1).ws_address(), peer(11, 1, 1, 1, 1).ws_address());
}

#[test]
fn peers_without_a_relay_address_are_skipped() {
    let mut manager = PeerManager::with_info_hash(settings(), [7; 20]);
    let found = vec![peer(1, 1, 1, 1, 1), peer(2, 2, 2, 2, 2)];
    manager.tick_with(&found, &vec![None, Some("ws://b".to_string())], None);
    assert!(matches!(manager.next_step(), TickAction::AddRelay(url) if url == "ws://b"));
    manager.relay_added(false);
    assert!(matches!(manager.next_step(), TickAction::Done));
    assert_eq!(manager.announce_peer().info_hash, [7; 20]);
}

#[test]
fn peers_with_one_relay_address_count_once() {
    let mut manager = PeerManager::new(settings());
    let found = vec![peer(1, 1, 1, 1, 1), peer(2, 2, 2, 2, 2)];
    let urls = vec![Some("ws://a".to_string()), Some("ws://a".to_string())];
    manager.tick_with(&found, &urls, None);
    assert!(matches!(manager.next_step(), TickAction::AddRelay(url) if url == "ws://a"));
    manager.relay_added(true);
    assert!(matches!(manager.next_step(), TickAction::Sync(urls) if urls == vec!["ws://a".to_string()]));
}

#[test]
fn a_failed_tick_is_over() {
    let mut manager = PeerManager::new(settings());
    let found = vec![peer(1, 1, 1, 1, 10), peer(2, 2, 2, 2, 20), peer(3, 3, 3, 3, 30)];
    manager.tick(&found, None);
    assert!(matches!(manager.next_step(), TickAction::AddRelay(_)));
    manager.relay_added(true);
    assert!(matches!(manager.next_step(), TickAction::AddRelay(_)));
    manager.tick_failed();
    assert!(matches!(manager.next_step(), TickAction::Done));
    assert_eq!(manager.connected_count(), 1);
    assert!(manager.is_connected(&"ws://1.1.1.1:10".to_string()));
    assert_eq!(manager.running_syncs(), 0);
    let (offered, synced) = run(&mut manager, &found, None, |_| true);
    let rest = vec!["ws://2.2.2.2:20".to_string(), "ws://3.3.3.3:30".to_string()];
    assert_eq!(offered, rest);
    assert_eq!(synced, Some(rest));
}

#[test]
fn no_peer_is_added_or_synced_twice() {
    let mut manager = PeerManager::new(settings());
    let mut added = Vec::new();
    let mut synced = Vec::new();
    for ports in [vec![1u16, 2, 1], vec![2, 3], vec![1, 2, 3], vec![4, 3]] {
        let found = ports.iter().map(|port| peer(9, 9, 9, 9, *port)).collect();
        let (offered, list) = run(&mut manager, &found, None, |_| true);
        added.extend(offered);
        synced.extend(list.unwrap_or_default());
    }
    let expected: Vec<String> = (1..=4).map(|port| format!("ws://9.9.9.9:{}", port)).collect();
    assert_eq!(added, expected);
    assert_eq!(synced, expected);
    assert_eq!(manager.connected_count(), 4);
}

#[test]
fn replies_that_nothing_waits_for_change_nothing() {
    let mut manager = PeerManager::new(settings());
    manager.relay_added(true);
    manager.sync_finished();
    assert!(matches!(manager.next_step(), TickAction::Done));
    assert_eq!(manager.connected_count(), 0);
    assert_eq!(manager.running_syncs(), 0);
}

#[test]
fn a_new_tick_gives_up_the_one_under_way() {
    let mut manager = PeerManager::new(settings());
    manager.tick(&vec![peer(1, 1, 1, 1, 10), peer(2, 2, 2, 2, 20)], None);
    manager.relay_added(true);
    let (offered, synced) = run(&mut manager, &vec![peer(3, 3, 3, 3, 30)], None, |_| true);
    assert_eq!(offered, vec!["ws://3.3.3.3:30".to_string()]);
    assert_eq!(synced, Some(vec!["ws://3.3.3.3:30".to_string()]));
    assert_eq!(manager.connected_count(), 2);
}
