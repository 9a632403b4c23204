//! Finding other relays through the DHT and connecting to them.
use crate::address::Ipv4;
use crate::address::PeerAddr;
use crate::digest;
use crate::settings::Settings;
use nostr_sdk::prelude::RelayUrl;
use vstd::prelude::*;

verus! {

/// How many syncs with new peers may run at the same time.
pub const MAX_SYNCS: usize = 3;

/// How long to wait for a port mapping before the local port is announced, in seconds.
pub const PORT_MAPPING_TIMEOUT: u64 = 30;

/// The time between two ticks, in seconds.
pub const TICK_INTERVAL: u64 = 300;

/// The text of the relay address that `text` stands for, if it stands for one.
pub uninterp spec fn relay_url_of(text: Seq<char>) -> Option<Seq<char>>;

/// `nostr_sdk::prelude::RelayUrl::parse`. The contract claims that the outcome, and the text
/// of the address that comes out, depend on `text` alone; which texts are addresses is left
/// to the name.
#[verifier::external_body]
fn parse_relay_url(text: &str) -> (url: Option<String>)
    ensures
        match url {
            Some(u) => relay_url_of(text@) == Some(u@),
            None => relay_url_of(text@) is None,
        },
{
    RelayUrl::parse(text).ok().map(|url| url.as_str().to_owned())
}

/// The key under which the relays of the archive find each other in the DHT: the SHA-1
/// digest of `nostr:2003`.
pub open spec fn archive_info_hash() -> Seq<u8> {
    digest::sha1_of("nostr:2003"@.map_values(|c: char| c as u8))
}

/// The relay address of a peer, if it has one.
pub open spec fn peer_url(peer: PeerAddr) -> Option<Seq<char>> {
    relay_url_of(peer.ws_text())
}

/// The relay addresses of peers, each at the index of its peer.
pub open spec fn peer_urls(peers: Seq<PeerAddr>) -> Seq<Option<Seq<char>>> {
    peers.map_values(|peer: PeerAddr| peer_url(peer))
}

/// Whether a peer is worth a connection, if `url` is its relay address: it is not this node,
/// it has a relay address, and that is not connected yet.
pub open spec fn is_new_peer(
    peer: PeerAddr,
    url: Option<Seq<char>>,
    public_ip: Option<Ipv4>,
    connected: Set<Seq<char>>,
) -> bool {
    &&& Some(peer.ip) != public_ip
    &&& url is Some
    &&& !connected.contains(url->0)
}

/// The relay addresses of the new peers among those that were found, each address once, if
/// `urls` holds the relay address of each of them.
pub open spec fn new_relays(
    found: Seq<PeerAddr>,
    urls: Seq<Option<Seq<char>>>,
    public_ip: Option<Ipv4>,
    connected: Set<Seq<char>>,
) -> Seq<Seq<char>>
    decreases found.len(),
{
    if found.len() == 0 {
        seq![]
    } else {
        let before = new_relays(found.drop_last(), urls.drop_last(), public_ip, connected);
        let peer = found.last();
        if is_new_peer(peer, urls.last(), public_ip, connected) && !before.contains(urls.last()->0) {
            before.push(urls.last()->0)
        } else {
            before
        }
    }
}

/// Texts as sequences of characters.
pub open spec fn texts(list: Seq<String>) -> Seq<Seq<char>> {
    list.map_values(|s: String| s@)
}

/// Optional texts as sequences of characters.
pub open spec fn optional_texts(list: Seq<Option<String>>) -> Seq<Option<Seq<char>>> {
    list.map_values(
        |s: Option<String>|
            match s {
                Some(t) => Some(t@),
                None => None,
            },
    )
}

/// Whether `list` holds `text`.
fn holds(list: &Vec<String>, text: &String) -> (found: bool)
    ensures
        found == texts(list@).contains(text@),
{
    let mut i: usize = 0;
    while i < list.len()
        invariant
            i <= list@.len(),
            forall|k: int| 0 <= k < i ==> (#[trigger] list@[k])@ != text@,
        decreases list@.len() - i,
    {
        if list[i] == *text {
            assert(texts(list@)[i as int] == text@);
            return true;
        }
        i += 1;
    }
    false
}

proof fn pushed_to_set(list: Seq<Seq<char>>, text: Seq<char>)
    ensures
        list.push(text).to_set() == list.to_set().insert(text),
{
    let longer = list.push(text);
    assert forall|t: Seq<char>| longer.to_set().contains(t) == list.to_set().insert(text).contains(t) by {
        if longer.contains(t) {
            let i = choose|i: int| 0 <= i < longer.len() && longer[i] == t;
            if i < list.len() {
                assert(list[i] == t);
            }
        }
        if list.contains(t) {
            let i = choose|i: int| 0 <= i < list.len() && list[i] == t;
            assert(longer[i] == t);
        }
        if t == text {
            assert(longer[list.len() as int] == t);
        }
    }
    assert(longer.to_set() =~= list.to_set().insert(text));
}

/// What a probe found of ways to map a port.
#[derive(Clone, Copy, Debug)]
pub struct ProbeOutput {
    pub upnp: bool,
    pub pcp: bool,
    pub nat_pmp: bool,
}

impl ProbeOutput {
    /// Whether there is a way to map a port.
    pub open spec fn any(self) -> bool {
        self.nat_pmp || self.upnp || self.pcp
    }
}

/// What is to be done when the peer manager starts.
#[derive(Clone, Copy, Debug)]
pub enum StartAction {
    /// Probe for ways to map a port, and hand in what was found.
    Probe,
    /// Map the local port, and hand in each external address.
    MapPort(u16),
    /// Wait for so many seconds, and then hand in that the time is over.
    FallBackAfter(u64),
}

/// What is to be announced in the DHT.
#[derive(Clone, Copy, Debug)]
pub struct Announcement {
    pub info_hash: [u8; 20],
    pub port: u16,
}

/// A tick: the relays that it has still to add, and those it has added and not synced with
/// yet. Both are empty while no tick is under way.
#[verifier::ext_equal]
pub struct TickView {
    pub waiting: Seq<Seq<char>>,
    pub added: Seq<Seq<char>>,
}

/// What is to be done next in a tick.
#[derive(Debug)]
pub enum TickAction {
    /// Add a relay, and hand in whether it was added.
    AddRelay(String),
    /// Wait until a sync is over.
    WaitForSync,
    /// Connect, and start a sync with these relays; hand in when it is over.
    Sync(Vec<String>),
    /// Nothing.
    Done,
}

/// What is to be done next in a tick, with texts as sequences of characters.
pub enum TickActionView {
    AddRelay(Seq<char>),
    WaitForSync,
    Sync(Seq<Seq<char>>),
    Done,
}

impl View for TickAction {
    type V = TickActionView;

    open spec fn view(&self) -> TickActionView {
        match self {
            TickAction::AddRelay(url) => TickActionView::AddRelay(url@),
            TickAction::WaitForSync => TickActionView::WaitForSync,
            TickAction::Sync(urls) => TickActionView::Sync(texts(urls@)),
            TickAction::Done => TickActionView::Done,
        }
    }
}

/// Manages connected relays through the DHT.
#[derive(Debug)]
pub struct PeerManager {
    settings: Settings,
    info_hash: [u8; 20],
    external_port: Option<u16>,
    connected_peers: Vec<String>,
    running_syncs: usize,
    port_mapping_elapsed: u64,
    waiting: Vec<String>,
    added: Vec<String>,
}

/// The state of a peer manager.
#[verifier::ext_equal]
pub struct PeerState {
    /// Application settings.
    pub settings: Settings,
    /// DHT info hash for peer discovery.
    pub info_hash: Seq<u8>,
    /// External port used for DHT announcements.
    pub external_port: Option<u16>,
    /// The relay addresses of the peers that were connected to.
    pub connected: Set<Seq<char>>,
    /// How many syncs run.
    pub running_syncs: nat,
    /// How long a port mapping was waited for, in seconds.
    pub port_mapping_elapsed: nat,
    /// The tick that is under way.
    pub tick: TickView,
}

impl PeerState {
    /// The state at the start.
    pub open spec fn initial(settings: Settings, info_hash: Seq<u8>) -> Self {
        PeerState {
            settings,
            info_hash,
            external_port: None,
            connected: Set::empty(),
            running_syncs: 0,
            port_mapping_elapsed: 0,
            tick: TickView { waiting: seq![], added: seq![] },
        }
    }

    /// What is done at the start: with an explicit public address there is no need to probe.
    pub open spec fn start_action(self) -> StartAction {
        if self.settings.dht_public_ip is Some {
            StartAction::FallBackAfter(PORT_MAPPING_TIMEOUT)
        } else {
            StartAction::Probe
        }
    }

    /// What is done after a probe; `None` stands for a probe that failed.
    pub open spec fn probed_action(self, outcome: Option<ProbeOutput>) -> StartAction {
        if outcome matches Some(probe) && probe.any() {
            StartAction::MapPort(self.settings.port())
        } else {
            StartAction::FallBackAfter(PORT_MAPPING_TIMEOUT)
        }
    }

    /// The port that is announced: the external one where it is known, else the local one.
    pub open spec fn announce_port(self) -> u16 {
        match self.external_port {
            Some(port) => port,
            None => self.settings.port(),
        }
    }

    /// What is announced: the port, under the info hash.
    pub open spec fn announcement(self) -> (Seq<u8>, u16) {
        (self.info_hash, self.announce_port())
    }

    /// After the external address has changed to one with a port, or has gone.
    pub open spec fn mapped(self, port: Option<u16>) -> Self {
        match port {
            Some(p) => PeerState { external_port: Some(p), ..self },
            None => self,
        }
    }

    /// After the time to wait for a port mapping is over.
    pub open spec fn timed_out(self) -> Self {
        PeerState {
            external_port: Some(self.settings.port()),
            port_mapping_elapsed: PORT_MAPPING_TIMEOUT as nat,
            ..self
        }
    }

    /// After a tick has started that has these relays to add. A tick that was under way is
    /// given up.
    pub open spec fn tick_started(self, waiting: Seq<Seq<char>>) -> Self {
        PeerState { tick: TickView { waiting, added: seq![] }, ..self }
    }

    /// After the relay that the tick waited for first was added, or was not because it was
    /// there already. Nothing changes where the tick waits for none.
    pub open spec fn relay_added(self, added: bool) -> Self {
        if self.tick.waiting.len() == 0 {
            self
        } else {
            let url = self.tick.waiting[0];
            let waiting = self.tick.waiting.skip(1);
            if added {
                PeerState {
                    connected: self.connected.insert(url),
                    tick: TickView { waiting, added: self.tick.added.push(url) },
                    ..self
                }
            } else {
                PeerState { tick: TickView { waiting, ..self.tick }, ..self }
            }
        }
    }

    /// After a relay could not be added for an error: the tick is over, and nothing is synced
    /// with; what was added stays connected.
    pub open spec fn tick_failed(self) -> Self {
        PeerState { tick: TickView { waiting: seq![], added: seq![] }, ..self }
    }

    /// What is done next in a tick: nothing is added and no sync is started while as many
    /// syncs run as may.
    pub open spec fn next_action(self) -> TickActionView {
        if self.tick.waiting.len() == 0 && self.tick.added.len() == 0 {
            TickActionView::Done
        } else if self.running_syncs >= MAX_SYNCS {
            TickActionView::WaitForSync
        } else if self.tick.waiting.len() > 0 {
            TickActionView::AddRelay(self.tick.waiting[0])
        } else {
            TickActionView::Sync(self.tick.added)
        }
    }

    /// After it was said what is done next: a sync that is started runs, and ends the tick.
    pub open spec fn stepped(self) -> Self {
        if self.next_action() is Sync {
            PeerState {
                running_syncs: self.running_syncs + 1,
                tick: TickView { waiting: seq![], added: seq![] },
                ..self
            }
        } else {
            self
        }
    }

    /// After a sync is over. Nothing changes where none runs.
    pub open spec fn sync_finished(self) -> Self {
        if self.running_syncs == 0 {
            self
        } else {
            PeerState { running_syncs: (self.running_syncs - 1) as nat, ..self }
        }
    }

    /// After an event.
    pub open spec fn after(self, event: PeerEvent) -> Self {
        match event {
            PeerEvent::Mapped(port) => self.mapped(port),
            PeerEvent::TimedOut => self.timed_out(),
            PeerEvent::Tick(found, public_ip) => self.tick_started(
                new_relays(found, peer_urls(found), public_ip, self.connected),
            ),
            PeerEvent::RelayAdded(added) => self.relay_added(added),
            PeerEvent::TickFailed => self.tick_failed(),
            PeerEvent::Step => self.stepped(),
            PeerEvent::SyncFinished => self.sync_finished(),
        }
    }

    /// After a sequence of events.
    pub open spec fn after_all(self, events: Seq<PeerEvent>) -> Self
        decreases events.len(),
    {
        if events.len() == 0 {
            self
        } else {
            self.after_all(events.drop_last()).after(events.last())
        }
    }

    /// The relays that were added in a sequence of events, in order.
    pub open spec fn added_in(self, events: Seq<PeerEvent>) -> Seq<Seq<char>>
        decreases events.len(),
    {
        if events.len() == 0 {
            seq![]
        } else {
            let before = self.added_in(events.drop_last());
            let state = self.after_all(events.drop_last());
            if events.last() == PeerEvent::RelayAdded(true) && state.tick.waiting.len() > 0 {
                before.push(state.tick.waiting[0])
            } else {
                before
            }
        }
    }

    /// The relays of all syncs that were started in a sequence of events, one after another.
    pub open spec fn synced_in(self, events: Seq<PeerEvent>) -> Seq<Seq<char>>
        decreases events.len(),
    {
        if events.len() == 0 {
            seq![]
        } else {
            let before = self.synced_in(events.drop_last());
            match (events.last(), self.after_all(events.drop_last()).next_action()) {
                (PeerEvent::Step, TickActionView::Sync(urls)) => before + urls,
                _ => before,
            }
        }
    }
}

/// What can happen to a peer manager.
pub enum PeerEvent {
    /// The external address has changed to one with this port, or has gone.
    Mapped(Option<u16>),
    /// The time to wait for a port mapping is over.
    TimedOut,
    /// A tick starts with the peers that were found, from a public address.
    Tick(Seq<PeerAddr>, Option<Ipv4>),
    /// The relay that the tick waits for first was added, or was not.
    RelayAdded(bool),
    /// A relay could not be added for an error.
    TickFailed,
    /// The manager is asked what is to be done next.
    Step,
    /// A sync is over.
    SyncFinished,
}

impl View for PeerManager {
    type V = PeerState;

    closed spec fn view(&self) -> PeerState {
        PeerState {
            settings: self.settings,
            info_hash: self.info_hash@,
            external_port: self.external_port,
            connected: texts(self.connected_peers@).to_set(),
            running_syncs: self.running_syncs as nat,
            port_mapping_elapsed: self.port_mapping_elapsed as nat,
            tick: TickView { waiting: texts(self.waiting@), added: texts(self.added@) },
        }
    }
}

impl PeerManager {
    /// No peer is listed twice.
    pub closed spec fn no_peer_twice(&self) -> bool {
        texts(self.connected_peers@).no_duplicates()
    }

    /// The invariant: no peer is listed twice, and no more syncs run than may.
    pub open spec fn wf(&self) -> bool {
        &&& self.no_peer_twice()
        &&& self@.running_syncs <= MAX_SYNCS
    }

    /// A manager that finds peers under the info hash of the archive.
    pub fn new(settings: Settings) -> (manager: Self)
        ensures
            manager.wf(),
            manager@ == PeerState::initial(settings, archive_info_hash()),
            manager@.settings == settings,
            manager@.info_hash == digest::sha1_of("nostr:2003"@.map_values(|c: char| c as u8)),
            manager@.external_port is None,
            manager@.connected == Set::<Seq<char>>::empty(),
            manager@.running_syncs == 0,
            manager@.port_mapping_elapsed == 0,
            manager@.tick.waiting.len() == 0,
            manager@.tick.added.len() == 0,
    {
        let name = "nostr:2003";
        proof {
            reveal_strlit("nostr:2003");
            vstd::string::is_ascii_spec_bytes(name);
        }
        let bytes = name.as_bytes();
        assert(bytes@ =~= name@.map_values(|c: char| c as u8));
        let info_hash = digest::sha1_digest(bytes);
        Self::with_info_hash(settings, info_hash)
    }

    /// A manager that finds peers under an info hash.
    pub fn with_info_hash(settings: Settings, info_hash: [u8; 20]) -> (manager: Self)
        ensures
            manager.wf(),
            manager@ == PeerState::initial(settings, info_hash@),
            manager@.settings == settings,
            manager@.info_hash == info_hash@,
            manager@.external_port is None,
            manager@.connected == Set::<Seq<char>>::empty(),
            manager@.running_syncs == 0,
            manager@.port_mapping_elapsed == 0,
            manager@.tick.waiting.len() == 0,
            manager@.tick.added.len() == 0,
    {
        let manager = PeerManager {
            settings,
            info_hash,
            external_port: None,
            connected_peers: Vec::new(),
            running_syncs: 0,
            port_mapping_elapsed: 0,
            waiting: Vec::new(),
            added: Vec::new(),
        };
        assert(manager@ =~= PeerState::initial(settings, info_hash@));
        manager
    }

    /// Starts the manager: with an explicit public address no port is mapped.
    pub fn start(&self) -> (action: StartAction)
        ensures
            action == self@.start_action(),
            self@.settings.dht_public_ip is Some ==> action == StartAction::FallBackAfter(30),
            self@.settings.dht_public_ip is None ==> action == StartAction::Probe,
    {
        if self.settings.dht_public_ip.is_some() {
            StartAction::FallBackAfter(PORT_MAPPING_TIMEOUT)
        } else {
            StartAction::Probe
        }
    }

    /// Goes on after a probe; `None` stands for a probe that failed. Port zero cannot be
    /// mapped.
    pub fn probed(&self, outcome: Option<ProbeOutput>) -> (action: StartAction)
        requires
            outcome matches Some(probe) && probe.any() ==> self@.settings.port() != 0,
        ensures
            action == self@.probed_action(outcome),
            outcome matches Some(probe) && (probe.upnp || probe.pcp || probe.nat_pmp) ==> action
                == StartAction::MapPort(self@.settings.port()),
            outcome matches Some(probe) && !probe.upnp && !probe.pcp && !probe.nat_pmp ==> action
                == StartAction::FallBackAfter(30),
            outcome is None ==> action == StartAction::FallBackAfter(30),
    {
        if let Some(probe) = outcome {
            if probe.nat_pmp || probe.upnp || probe.pcp {
                return StartAction::MapPort(self.settings.local_port());
            }
        }
        StartAction::FallBackAfter(PORT_MAPPING_TIMEOUT)
    }

    /// Takes note of the port of a new external address, or of none.
    pub fn external_address_changed(&mut self, port: Option<u16>)
        requires
            old(self).wf(),
        ensures
            final(self).wf(),
            final(self)@ == old(self)@.mapped(port),
            final(self)@ == (PeerState { external_port: final(self)@.external_port, ..old(self)@ }),
            port is Some ==> final(self)@.external_port == port,
            port is None ==> final(self)@.external_port == old(self)@.external_port,
    {
        if let Some(p) = port {
            self.external_port = Some(p);
        }
    }

    /// Falls back to the local port: the time to wait for a port mapping is over.
    pub fn port_mapping_timed_out(&mut self)
        requires
            old(self).wf(),
        ensures
            final(self).wf(),
            final(self)@ == old(self)@.timed_out(),
            final(self)@ == (PeerState {
                external_port: final(self)@.external_port,
                port_mapping_elapsed: final(self)@.port_mapping_elapsed,
                ..old(self)@
            }),
            final(self)@.external_port == Some(old(self)@.settings.port()),
            final(self)@.port_mapping_elapsed == 30,
    {
        self.external_port = Some(self.settings.local_port());
        self.port_mapping_elapsed = PORT_MAPPING_TIMEOUT;
    }

    /// What is to be announced in the DHT.
    pub fn announce_peer(&self) -> (announcement: Announcement)
        ensures
            (announcement.info_hash@, announcement.port) == self@.announcement(),
            announcement.info_hash@ == self@.info_hash,
            self@.external_port matches Some(port) ==> announcement.port == port,
            self@.external_port is None ==> announcement.port == self@.settings.port(),
    {
        let port = match self.external_port {
            Some(p) => p,
            None => self.settings.local_port(),
        };
        Announcement { info_hash: self.info_hash, port }
    }

    /// Starts a tick with the peers that the DHT gave, from the public address of this node
    /// where it is known.
    pub fn tick(&mut self, found: &Vec<PeerAddr>, public_ip: Option<Ipv4>)
        requires
            old(self).wf(),
        ensures
            final(self).wf(),
            final(self)@ == old(self)@.tick_started(
                new_relays(found@, peer_urls(found@), public_ip, old(self)@.connected),
            ),
            final(self)@ == (PeerState { tick: final(self)@.tick, ..old(self)@ }),
            forall|url: Seq<char>| #[trigger]
                final(self)@.tick.waiting.contains(url) <==> !old(self)@.connected.contains(url) && exists|i: int|
                    0 <= i < found@.len() && Some((#[trigger] found@[i]).ip) != public_ip && relay_url_of(
                        found@[i].ws_text(),
                    ) == Some(url),
            final(self)@.tick.waiting.no_duplicates(),
            final(self)@.tick.added.len() == 0,
    {
        let mut urls: Vec<Option<String>> = Vec::new();
        let mut i: usize = 0;
        while i < found.len()
            invariant
                i <= found@.len(),
                optional_texts(urls@) =~= peer_urls(found@.take(i as int)),
            decreases found@.len() - i,
        {
            let address = found[i].ws_address();
            let url = parse_relay_url(address.as_str());
            let ghost before = urls@;
            urls.push(url);
            assert(optional_texts(urls@) =~= optional_texts(before).push(peer_url(found@[i as int])));
            assert(peer_urls(found@.take(i + 1)) =~= peer_urls(found@.take(i as int)).push(peer_url(found@[i as int])));
            i += 1;
        }
        assert(found@.take(found@.len() as int) =~= found@);
        assert(optional_texts(urls@).len() == peer_urls(found@).len());
        self.tick_with(found, &urls, public_ip);
        proof {
            let waiting = self@.tick.waiting;
            assert forall|url: Seq<char>| #[trigger]
                waiting.contains(url) <==> !old(self)@.connected.contains(url) && exists|i: int|
                    0 <= i < found@.len() && Some((#[trigger] found@[i]).ip) != public_ip && relay_url_of(
                        found@[i].ws_text(),
                    ) == Some(url) by {
                new_relays_by_index(found@, peer_urls(found@), public_ip, old(self)@.connected, url);
            }
        }
    }

    /// Starts a tick with the peers that the DHT gave and the relay address of each, where
    /// it has one.
    pub fn tick_with(&mut self, found: &Vec<PeerAddr>, urls: &Vec<Option<String>>, public_ip: Option<Ipv4>)
        requires
            old(self).wf(),
            urls@.len() == found@.len(),
        ensures
            final(self).wf(),
            final(self)@ == old(self)@.tick_started(
                new_relays(found@, optional_texts(urls@), public_ip, old(self)@.connected),
            ),
            final(self)@ == (PeerState { tick: final(self)@.tick, ..old(self)@ }),
            forall|url: Seq<char>| #[trigger]
                final(self)@.tick.waiting.contains(url) <==> !old(self)@.connected.contains(url) && exists|i: int|
                    0 <= i < found@.len() && Some((#[trigger] found@[i]).ip) != public_ip && (urls@[i] matches Some(
                        u,
                    ) && u@ == url),
            final(self)@.tick.waiting.no_duplicates(),
            final(self)@.tick.added.len() == 0,
    {
        let mut waiting: Vec<String> = Vec::new();
        let mut i: usize = 0;
        let ghost all = optional_texts(urls@);
        let ghost connected = self@.connected;
        assert(texts(waiting@) =~= new_relays(found@.take(0), all.take(0), public_ip, connected));
        while i < found.len()
            invariant
                i <= found@.len(),
                urls@.len() == found@.len(),
                all == optional_texts(urls@),
                connected == self@.connected,
                texts(waiting@) == new_relays(found@.take(i as int), all.take(i as int), public_ip, connected),
            decreases found@.len() - i,
        {
            let peer = found[i];
            let own = match public_ip {
                Some(ip) => peer.ip == ip,
                None => false,
            };
            assert(found@.take(i + 1).drop_last() =~= found@.take(i as int));
            assert(all.take(i + 1).drop_last() =~= all.take(i as int));
            assert(found@.take(i + 1).last() == peer);
            if !own {
                if let Some(url) = &urls[i] {
                    if !holds(&self.connected_peers, url) && !holds(&waiting, url) {
                        let ghost list = waiting@;
                        waiting.push(url.clone());
                        assert(texts(waiting@) =~= texts(list).push(url@));
                    }
                }
            }
            i += 1;
        }
        assert(found@.take(found@.len() as int) =~= found@);
        assert(all.take(found@.len() as int) =~= all);
        let ghost offered = texts(waiting@);
        self.waiting = waiting;
        self.added = Vec::new();
        assert(self@ =~= old(self)@.tick_started(offered));
        proof {
            a_tick_offers_no_relay_twice(found@, all, public_ip, connected);
            assert forall|url: Seq<char>| #[trigger]
                self@.tick.waiting.contains(url) <==> !connected.contains(url) && exists|i: int|
                    0 <= i < found@.len() && Some((#[trigger] found@[i]).ip) != public_ip && (urls@[i] matches Some(
                        u,
                    ) && u@ == url) by {
                new_relays_by_index(found@, all, public_ip, connected, url);
            }
        }
    }

    /// Says what is to be done next in a tick, and takes note of the sync that is started.
    pub fn next_step(&mut self) -> (action: TickAction)
        requires
            old(self).wf(),
        ensures
            final(self).wf(),
            action@ == old(self)@.next_action(),
            final(self)@ == old(self)@.stepped(),
            old(self)@.tick.waiting.len() == 0 && old(self)@.tick.added.len() == 0 ==> action is Done && final(self)@
                == old(self)@,
            (old(self)@.tick.waiting.len() > 0 || old(self)@.tick.added.len() > 0) && old(self)@.running_syncs >= 3
                ==> action is WaitForSync && final(self)@ == old(self)@,
            old(self)@.tick.waiting.len() > 0 && old(self)@.running_syncs < 3 ==> {
                &&& action matches TickAction::AddRelay(url)
                &&& url@ == old(self)@.tick.waiting[0]
                &&& final(self)@ == old(self)@
            },
            old(self)@.tick.waiting.len() == 0 && old(self)@.tick.added.len() > 0 && old(self)@.running_syncs < 3 ==> {
                &&& action matches TickAction::Sync(urls)
                &&& urls@.len() == old(self)@.tick.added.len()
                &&& forall|i: int| 0 <= i < urls@.len() ==> (#[trigger] urls@[i])@ == old(self)@.tick.added[i]
                &&& final(self)@ == (PeerState {
                    running_syncs: old(self)@.running_syncs + 1,
                    tick: TickView { waiting: seq![], added: seq![] },
                    ..old(self)@
                })
            },
    {
        if self.waiting.is_empty() && self.added.is_empty() {
            return TickAction::Done;
        }
        if self.running_syncs >= MAX_SYNCS {
            return TickAction::WaitForSync;
        }
        if !self.waiting.is_empty() {
            let url = self.waiting[0].clone();
            return TickAction::AddRelay(url);
        }
        let mut urls: Vec<String> = Vec::new();
        std::mem::swap(&mut urls, &mut self.added);
        self.running_syncs = self.running_syncs + 1;
        assert(self@ =~= old(self)@.stepped());
        TickAction::Sync(urls)
    }

    /// Takes note of whether the relay was added that the tick waits for first. A relay that
    /// was added counts as connected.
    pub fn relay_added(&mut self, added: bool)
        requires
            old(self).wf(),
        ensures
            final(self).wf(),
            final(self)@ == old(self)@.relay_added(added),
            final(self)@ == (PeerState {
                connected: final(self)@.connected,
                tick: final(self)@.tick,
                ..old(self)@
            }),
            old(self)@.tick.waiting.len() == 0 ==> final(self)@ == old(self)@,
            old(self)@.tick.waiting.len() > 0 ==> final(self)@.tick.waiting == old(self)@.tick.waiting.subrange(
                1,
                old(self)@.tick.waiting.len() as int,
            ),
            old(self)@.tick.waiting.len() > 0 && added ==> {
                &&& final(self)@.connected == old(self)@.connected.insert(old(self)@.tick.waiting[0])
                &&& final(self)@.tick.added == old(self)@.tick.added.push(old(self)@.tick.waiting[0])
            },
            !added ==> final(self)@.connected == old(self)@.connected && final(self)@.tick.added
                == old(self)@.tick.added,
    {
        if self.waiting.is_empty() {
            return;
        }
        let url = self.waiting.remove(0);
        assert(texts(self.waiting@) =~= old(self)@.tick.waiting.skip(1));
        if added {
            if !holds(&self.connected_peers, &url) {
                let ghost list = self.connected_peers@;
                self.connected_peers.push(url.clone());
                assert(texts(self.connected_peers@) =~= texts(list).push(url@));
                proof {
                    pushed_to_set(texts(list), url@);
                }
            }
            let ghost list = self.added@;
            self.added.push(url);
            assert(texts(self.added@) =~= texts(list).push(url@));
        }
        assert(self@ =~= old(self)@.relay_added(added));
    }

    /// Takes note that a relay could not be added for an error: the tick is over, without a
    /// sync. What it has added stays connected.
    pub fn tick_failed(&mut self)
        requires
            old(self).wf(),
        ensures
            final(self).wf(),
            final(self)@ == old(self)@.tick_failed(),
            final(self)@ == (PeerState { tick: final(self)@.tick, ..old(self)@ }),
            final(self)@.tick.waiting.len() == 0,
            final(self)@.tick.added.len() == 0,
    {
        self.waiting = Vec::new();
        self.added = Vec::new();
        assert(self@ =~= old(self)@.tick_failed());
    }

    /// Takes note that a sync is over.
    pub fn sync_finished(&mut self)
        requires
            old(self).wf(),
        ensures
            final(self).wf(),
            final(self)@ == old(self)@.sync_finished(),
            final(self)@ == (PeerState { running_syncs: final(self)@.running_syncs, ..old(self)@ }),
            old(self)@.running_syncs > 0 ==> final(self)@.running_syncs == old(self)@.running_syncs - 1,
            old(self)@.running_syncs == 0 ==> final(self)@.running_syncs == 0,
    {
        if self.running_syncs > 0 {
            self.running_syncs = self.running_syncs - 1;
        }
    }

    /// The external port, where it is known.
    pub fn external_port(&self) -> (port: Option<u16>)
        ensures
            port == self@.external_port,
    {
        self.external_port
    }

    /// How long a port mapping was waited for, in seconds.
    pub fn port_mapping_elapsed(&self) -> (seconds: u64)
        ensures
            seconds == self@.port_mapping_elapsed,
    {
        self.port_mapping_elapsed
    }

    /// How many syncs run.
    pub fn running_syncs(&self) -> (count: usize)
        ensures
            count == self@.running_syncs,
    {
        self.running_syncs
    }

    /// Whether the peer with a relay address was connected to.
    pub fn is_connected(&self, url: &String) -> (connected: bool)
        ensures
            connected == self@.connected.contains(url@),
    {
        holds(&self.connected_peers, url)
    }

    /// How many peers were connected to.
    pub fn connected_count(&self) -> (count: usize)
        requires
            self.wf(),
        ensures
            count == self@.connected.len(),
    {
        proof {
            texts(self.connected_peers@).unique_seq_to_set();
        }
        self.connected_peers.len()
    }
}

/// The relays that a tick adds are those of the new peers among the ones that were found,
/// and no others.
pub proof fn a_tick_adds_the_new_peers(
    found: Seq<PeerAddr>,
    public_ip: Option<Ipv4>,
    connected: Set<Seq<char>>,
    url: Seq<char>,
)
    ensures
        new_relays(found, peer_urls(found), public_ip, connected).contains(url) <==> exists|peer: PeerAddr| #[trigger]
            found.contains(peer) && is_new_peer(peer, peer_url(peer), public_ip, connected) && peer_url(peer) == Some(
                url,
            ),
    decreases found.len(),
{
    if found.len() > 0 {
        let start = found.drop_last();
        let last = found.last();
        let before = new_relays(start, peer_urls(start), public_ip, connected);
        let all = new_relays(found, peer_urls(found), public_ip, connected);
        assert(peer_urls(found).drop_last() =~= peer_urls(start));
        assert(peer_urls(found).last() == peer_url(last));
        a_tick_adds_the_new_peers(start, public_ip, connected, url);
        assert(found[found.len() - 1] == last);
        if before.contains(url) {
            let i = choose|i: int| 0 <= i < before.len() && before[i] == url;
            assert(all[i] == url);
            let peer = choose|peer: PeerAddr| #[trigger]
                start.contains(peer) && is_new_peer(peer, peer_url(peer), public_ip, connected) && peer_url(peer)
                    == Some(url);
            let k = choose|k: int| 0 <= k < start.len() && start[k] == peer;
            assert(found[k] == peer);
            assert(found.contains(peer));
        } else {
            if all.contains(url) {
                let i = choose|i: int| 0 <= i < all.len() && all[i] == url;
                assert(i == before.len()) by {
                    if i < before.len() {
                        assert(before[i] == url);
                    }
                }
                assert(found.contains(last) && peer_url(last) == Some(url));
            }
            if exists|peer: PeerAddr| #[trigger]
                found.contains(peer) && is_new_peer(peer, peer_url(peer), public_ip, connected) && peer_url(peer)
                    == Some(url) {
                let peer = choose|peer: PeerAddr| #[trigger]
                    found.contains(peer) && is_new_peer(peer, peer_url(peer), public_ip, connected) && peer_url(peer)
                        == Some(url);
                let k = choose|k: int| 0 <= k < found.len() && found[k] == peer;
                if k < start.len() {
                    assert(start[k] == peer);
                    assert(start.contains(peer));
                }
                assert(peer == last);
                assert(all[before.len() as int] == url);
            }
        }
    }
}

proof fn new_relays_by_index(
    found: Seq<PeerAddr>,
    urls: Seq<Option<Seq<char>>>,
    public_ip: Option<Ipv4>,
    connected: Set<Seq<char>>,
    url: Seq<char>,
)
    requires
        urls.len() == found.len(),
    ensures
        new_relays(found, urls, public_ip, connected).contains(url) <==> !connected.contains(url) && exists|i: int|
            0 <= i < found.len() && Some((#[trigger] found[i]).ip) != public_ip && urls[i] == Some(url),
    decreases found.len(),
{
    if found.len() > 0 {
        let start = found.drop_last();
        let before = new_relays(start, urls.drop_last(), public_ip, connected);
        let all = new_relays(found, urls, public_ip, connected);
        let n = found.len() - 1;
        new_relays_by_index(start, urls.drop_last(), public_ip, connected, url);
        if before.contains(url) {
            let k = choose|k: int| 0 <= k < before.len() && before[k] == url;
            assert(all[k] == url);
            let i = choose|i: int|
                0 <= i < start.len() && Some((#[trigger] start[i]).ip) != public_ip && urls.drop_last()[i] == Some(url);
            assert(found[i] == start[i]);
        } else {
            if all.contains(url) {
                let k = choose|k: int| 0 <= k < all.len() && all[k] == url;
                if k < before.len() {
                    assert(before[k] == url);
                }
                assert(found[n] == found.last());
            }
            if !connected.contains(url) && exists|i: int|
                0 <= i < found.len() && Some((#[trigger] found[i]).ip) != public_ip && urls[i] == Some(url) {
                let i = choose|i: int|
                    0 <= i < found.len() && Some((#[trigger] found[i]).ip) != public_ip && urls[i] == Some(url);
                if i < n {
                    assert(start[i] == found[i]);
                }
                assert(i == n);
                assert(all[before.len() as int] == url);
            }
        }
    }
}

/// A tick that starts waits for the relay address of every peer that was found, is not at the
/// own address, has a relay address and is not connected; for no other; and for none twice.
/// Nothing else of the manager changes, and nothing is left of a tick before.
pub proof fn a_tick_waits_for_every_new_peer(
    state: PeerState,
    found: Seq<PeerAddr>,
    public_ip: Option<Ipv4>,
    url: Seq<char>,
)
    ensures
        ({
            let begun = state.tick_started(new_relays(found, peer_urls(found), public_ip, state.connected));
            &&& begun == state.after(PeerEvent::Tick(found, public_ip))
            &&& begun.tick.waiting.contains(url) <==> !state.connected.contains(url) && exists|i: int|
                0 <= i < found.len() && Some((#[trigger] found[i]).ip) != public_ip && relay_url_of(found[i].ws_text())
                    == Some(url)
            &&& begun.tick.waiting.no_duplicates()
            &&& begun.tick.added.len() == 0
            &&& begun == (PeerState { tick: begun.tick, ..state })
        }),
{
    new_relays_by_index(found, peer_urls(found), public_ip, state.connected, url);
    a_tick_offers_no_relay_twice(found, peer_urls(found), public_ip, state.connected);
}

/// Relays wait in the order in which their peers were found: what the DHT gives later waits
/// behind what it gave before.
pub proof fn relays_wait_in_the_order_found(
    state: PeerState,
    found: Seq<PeerAddr>,
    urls: Seq<Option<Seq<char>>>,
    more: Seq<PeerAddr>,
    more_urls: Seq<Option<Seq<char>>>,
    public_ip: Option<Ipv4>,
)
    requires
        urls.len() == found.len(),
        more_urls.len() == more.len(),
    ensures
        ({
            let few = state.tick_started(new_relays(found, urls, public_ip, state.connected));
            let all = state.tick_started(new_relays(found + more, urls + more_urls, public_ip, state.connected));
            few.tick.waiting.is_prefix_of(all.tick.waiting)
        }),
    decreases more.len(),
{
    if more.len() == 0 {
        assert(found + more =~= found);
        assert(urls + more_urls =~= urls);
    } else {
        relays_wait_in_the_order_found(state, found, urls, more.drop_last(), more_urls.drop_last(), public_ip);
        assert((found + more).drop_last() =~= found + more.drop_last());
        assert((urls + more_urls).drop_last() =~= urls + more_urls.drop_last());
    }
}

/// Any one way to map a port is enough, whatever the other two are; and without any, as after
/// a probe that failed, the local port is fallen back to.
pub proof fn one_way_to_map_a_port_is_enough(state: PeerState, upnp: bool, pcp: bool, nat_pmp: bool)
    ensures
        upnp || pcp || nat_pmp ==> state.probed_action(Some(ProbeOutput { upnp, pcp, nat_pmp }))
            == StartAction::MapPort(state.settings.port()),
        !upnp && !pcp && !nat_pmp ==> state.probed_action(Some(ProbeOutput { upnp, pcp, nat_pmp }))
            == StartAction::FallBackAfter(30),
        state.probed_action(None) == StartAction::FallBackAfter(30),
        (ProbeOutput { upnp, pcp, nat_pmp }).any() <==> upnp || pcp || nat_pmp,
{
}

/// The limits that the manager keeps to.
pub proof fn the_manager_keeps_to_its_limits()
    ensures
        MAX_SYNCS == 3,
        PORT_MAPPING_TIMEOUT == 30,
        TICK_INTERVAL == 300,
{
}

/// An explicit public address makes a probe needless.
pub proof fn a_public_address_needs_no_probe(state: PeerState)
    ensures
        state.start_action() == StartAction::Probe <==> state.settings.dht_public_ip is None,
        state.start_action() == StartAction::FallBackAfter(30) <==> state.settings.dht_public_ip is Some,
{
}

/// A relay that was added leaves the relays that wait and joins those to sync with and those
/// that are connected; one that was there already only leaves the relays that wait.
pub proof fn a_reply_moves_one_relay(state: PeerState, url: Seq<char>, rest: Seq<Seq<char>>)
    requires
        state.tick.waiting == seq![url] + rest,
    ensures
        state.relay_added(true) == (PeerState {
            connected: state.connected.insert(url),
            tick: TickView { waiting: rest, added: state.tick.added.push(url) },
            ..state
        }),
        state.relay_added(false) == (PeerState {
            tick: TickView { waiting: rest, added: state.tick.added },
            ..state
        }),
        state.next_action() == (if state.running_syncs < 3 {
            TickActionView::AddRelay(url)
        } else {
            TickActionView::WaitForSync
        }),
        state.stepped() == state,
{
    assert(state.tick.waiting.skip(1) =~= rest);
}

/// Once no relay waits, one sync is started with all that were added, as soon as fewer than
/// three run, and that ends the tick; when it is over, as many run as before.
pub proof fn a_tick_ends_with_one_sync(state: PeerState)
    requires
        state.tick.waiting.len() == 0,
        state.tick.added.len() > 0,
    ensures
        state.running_syncs >= 3 ==> state.next_action() is WaitForSync && state.stepped() == state,
        state.running_syncs < 3 ==> {
            &&& state.next_action() == TickActionView::Sync(state.tick.added)
            &&& state.stepped().running_syncs == state.running_syncs + 1
            &&& state.stepped().next_action() is Done
            &&& state.stepped().connected == state.connected
            &&& state.stepped().sync_finished().running_syncs == state.running_syncs
        },
{
}

/// A peer that was connected to is not tried again.
pub proof fn a_connected_peer_is_not_tried_again(
    found: Seq<PeerAddr>,
    public_ip: Option<Ipv4>,
    connected: Set<Seq<char>>,
    url: Seq<char>,
)
    requires
        connected.contains(url),
    ensures
        !new_relays(found, peer_urls(found), public_ip, connected).contains(url),
{
    a_tick_adds_the_new_peers(found, public_ip, connected, url);
}

/// A peer that the DHT gives a second time changes nothing.
pub proof fn a_peer_found_twice_counts_once(
    found: Seq<PeerAddr>,
    public_ip: Option<Ipv4>,
    connected: Set<Seq<char>>,
    peer: PeerAddr,
)
    requires
        found.contains(peer),
    ensures
        new_relays(found.push(peer), peer_urls(found.push(peer)), public_ip, connected) == new_relays(
            found,
            peer_urls(found),
            public_ip,
            connected,
        ),
{
    assert(found.push(peer).drop_last() =~= found);
    assert(peer_urls(found.push(peer)).drop_last() =~= peer_urls(found));
    if is_new_peer(peer, peer_url(peer), public_ip, connected) {
        a_tick_adds_the_new_peers(found, public_ip, connected, peer_url(peer)->0);
    }
}

/// This node does not connect to peers at its own address: they change nothing.
pub proof fn own_address_is_left_out(
    found: Seq<PeerAddr>,
    public_ip: Ipv4,
    connected: Set<Seq<char>>,
    port: u16,
)
    ensures
        ({
            let own = PeerAddr { ip: public_ip, port };
            new_relays(found.push(own), peer_urls(found.push(own)), Some(public_ip), connected) == new_relays(
                found,
                peer_urls(found),
                Some(public_ip),
                connected,
            )
        }),
{
    let own = PeerAddr { ip: public_ip, port };
    assert(found.push(own).drop_last() =~= found);
    assert(peer_urls(found.push(own)).drop_last() =~= peer_urls(found));
}

/// A tick offers no relay twice, whatever relay addresses the peers have.
pub proof fn a_tick_offers_no_relay_twice(
    found: Seq<PeerAddr>,
    urls: Seq<Option<Seq<char>>>,
    public_ip: Option<Ipv4>,
    connected: Set<Seq<char>>,
)
    ensures
        new_relays(found, urls, public_ip, connected).no_duplicates(),
    decreases found.len(),
{
    if found.len() > 0 {
        a_tick_offers_no_relay_twice(found.drop_last(), urls.drop_last(), public_ip, connected);
    }
}

/// What holds after any sequence of events, of what was added and synced in it.
spec fn sync_invariant(start: PeerState, events: Seq<PeerEvent>) -> bool {
    let state = start.after_all(events);
    let added = start.added_in(events);
    let claimed = start.synced_in(events) + state.tick.added;
    &&& state.connected == added.to_set()
    &&& added.no_duplicates() ==> claimed.no_duplicates()
    &&& forall|i: int| 0 <= i < claimed.len() ==> state.connected.contains(#[trigger] claimed[i])
}

proof fn sync_invariant_is_kept(settings: Settings, info_hash: Seq<u8>, events: Seq<PeerEvent>)
    ensures
        sync_invariant(PeerState::initial(settings, info_hash), events),
    decreases events.len(),
{
    let start = PeerState::initial(settings, info_hash);
    if events.len() == 0 {
        assert(start.added_in(events).to_set() =~= start.connected);
    } else {
        let fewer = events.drop_last();
        sync_invariant_is_kept(settings, info_hash, fewer);
        let old_state = start.after_all(fewer);
        let state = start.after_all(events);
        let old_synced = start.synced_in(fewer);
        let old_claimed = old_synced + old_state.tick.added;
        let claimed = start.synced_in(events) + state.tick.added;
        let log = start.added_in(fewer);
        match events.last() {
            PeerEvent::Tick(_, _) | PeerEvent::TickFailed => {
                assert(claimed =~= old_synced);
                assert(forall|i: int| 0 <= i < claimed.len() ==> #[trigger] claimed[i] == old_claimed[i]);
            },
            PeerEvent::RelayAdded(true) => {
                if old_state.tick.waiting.len() > 0 {
                    let url = old_state.tick.waiting[0];
                    let longer = log.push(url);
                    pushed_to_set(log, url);
                    assert(start.added_in(events) == longer);
                    assert(claimed =~= old_claimed.push(url));
                    if longer.no_duplicates() {
                        assert forall|i: int, j: int|
                            0 <= i < log.len() && 0 <= j < log.len() && i != j implies log[i] != log[j] by {
                            assert(longer[i] != longer[j]);
                        }
                        assert(!log.contains(url)) by {
                            if log.contains(url) {
                                let i = choose|i: int| 0 <= i < log.len() && log[i] == url;
                                assert(longer[i] != longer[log.len() as int]);
                            }
                        }
                        assert(!old_state.connected.contains(url));
                    }
                } else {
                    assert(claimed =~= old_claimed);
                }
            },
            _ => {
                assert(claimed =~= old_claimed);
            },
        }
    }
}

proof fn syncs_are_with_added_peers(settings: Settings, info_hash: Seq<u8>, events: Seq<PeerEvent>)
    ensures
        ({
            let start = PeerState::initial(settings, info_hash);
            let state = start.after_all(events);
            &&& state.connected == start.added_in(events).to_set()
            &&& start.synced_in(events).to_set().subset_of(state.connected)
            &&& start.added_in(events).no_duplicates() ==> start.synced_in(events).no_duplicates()
        }),
{
    let start = PeerState::initial(settings, info_hash);
    sync_invariant_is_kept(settings, info_hash, events);
    let state = start.after_all(events);
    let synced = start.synced_in(events);
    let claimed = synced + state.tick.added;
    assert forall|i: int| 0 <= i < synced.len() implies #[trigger] synced[i] == claimed[i] by {}
    assert forall|u: Seq<char>| synced.to_set().contains(u) implies state.connected.contains(u) by {
        let i = choose|i: int| 0 <= i < synced.len() && synced[i] == u;
        assert(claimed[i] == u);
    }
}

/// The relays that wait to be added are not connected, and none waits twice.
spec fn waiting_is_new(state: PeerState) -> bool {
    &&& state.tick.waiting.no_duplicates()
    &&& forall|i: int| 0 <= i < state.tick.waiting.len() ==> !state.connected.contains(#[trigger] state.tick.waiting[i])
}

/// Over any sequence of events from the start on, with one tick after another: no relay is
/// added twice and none is in the lists of the syncs twice; the connected peers are those that
/// were added; and a sync is made with connected peers only.
pub proof fn no_peer_is_added_or_synced_twice(settings: Settings, info_hash: Seq<u8>, events: Seq<PeerEvent>)
    ensures
        ({
            let start = PeerState::initial(settings, info_hash);
            let state = start.after_all(events);
            &&& start.added_in(events).no_duplicates()
            &&& start.synced_in(events).no_duplicates()
            &&& state.connected == start.added_in(events).to_set()
            &&& start.synced_in(events).to_set().subset_of(state.connected)
        }),
{
    new_relays_wait(settings, info_hash, events);
    syncs_are_with_added_peers(settings, info_hash, events);
}

proof fn new_relays_wait(settings: Settings, info_hash: Seq<u8>, events: Seq<PeerEvent>)
    ensures
        waiting_is_new(PeerState::initial(settings, info_hash).after_all(events)),
        PeerState::initial(settings, info_hash).added_in(events).no_duplicates(),
    decreases events.len(),
{
    if events.len() > 0 {
        let start = PeerState::initial(settings, info_hash);
        let fewer = events.drop_last();
        let event = events.last();
        new_relays_wait(settings, info_hash, fewer);
        sync_invariant_is_kept(settings, info_hash, fewer);
        let old_state = start.after_all(fewer);
        match event {
            PeerEvent::Tick(found, public_ip) => {
                let offered = new_relays(found, peer_urls(found), public_ip, old_state.connected);
                a_tick_offers_no_relay_twice(found, peer_urls(found), public_ip, old_state.connected);
                assert forall|i: int| 0 <= i < offered.len() implies !old_state.connected.contains(
                    #[trigger] offered[i],
                ) by {
                    assert(offered.contains(offered[i]));
                    a_tick_adds_the_new_peers(found, public_ip, old_state.connected, offered[i]);
                }
            },
            PeerEvent::RelayAdded(added) => {
                if old_state.tick.waiting.len() > 0 && added {
                    let log = start.added_in(fewer);
                    assert(!log.to_set().contains(old_state.tick.waiting[0]));
                    assert(!log.contains(old_state.tick.waiting[0]));
                }
            },
            _ => {},
        }
    }
}

/// Those of the relays that were added, by the replies for the first of them.
pub open spec fn added_of(relays: Seq<Seq<char>>, replies: Seq<bool>) -> Seq<Seq<char>>
    decreases replies.len(),
{
    if replies.len() == 0 {
        seq![]
    } else {
        let before = added_of(relays, replies.drop_last());
        if replies.last() {
            before.push(relays[replies.len() - 1])
        } else {
            before
        }
    }
}

/// The replies for relays, as events.
pub open spec fn reply_events(replies: Seq<bool>) -> Seq<PeerEvent> {
    replies.map_values(|added: bool| PeerEvent::RelayAdded(added))
}

/// A tick syncs with the relays that it added, in order, and with no others; these are what
/// it adds to the connected peers, and nothing else changes.
pub proof fn a_tick_syncs_with_what_it_added(state: PeerState, replies: Seq<bool>)
    requires
        replies.len() <= state.tick.waiting.len(),
    ensures
        ({
            let added = added_of(state.tick.waiting, replies);
            state.after_all(reply_events(replies)) == (PeerState {
                connected: state.connected.union(added.to_set()),
                tick: TickView {
                    waiting: state.tick.waiting.skip(replies.len() as int),
                    added: state.tick.added + added,
                },
                ..state
            })
        }),
    decreases replies.len(),
{
    let tick = state.tick;
    let added = added_of(tick.waiting, replies);
    if replies.len() == 0 {
        assert(tick.waiting.skip(0) =~= tick.waiting);
        assert(tick.added + added =~= tick.added);
        assert(state.connected.union(added.to_set()) =~= state.connected);
    } else {
        let n = replies.len() - 1;
        let fewer = replies.drop_last();
        a_tick_syncs_with_what_it_added(state, fewer);
        assert(reply_events(replies).drop_last() =~= reply_events(fewer));
        let before = added_of(tick.waiting, fewer);
        assert(tick.waiting.skip(n).skip(1) =~= tick.waiting.skip(n + 1));
        if replies.last() {
            let url = tick.waiting[n];
            assert((tick.added + before).push(url) =~= tick.added + added);
            pushed_to_set(before, url);
            assert(state.connected.union(before.to_set()).insert(url) =~= state.connected.union(added.to_set()));
        }
    }
}

/// A tick that fails is over, without a sync: nothing is left to do, and what was added up to
/// then stays connected.
pub proof fn a_failed_tick_is_over(state: PeerState)
    ensures
        state.tick_failed().next_action() is Done,
        state.tick_failed().connected == state.connected,
        state.tick_failed().running_syncs == state.running_syncs,
{
}

/// No event makes a manager forget a peer that it was connected to, or changes its settings
/// or its info hash.
pub proof fn connected_peers_are_kept(state: PeerState, events: Seq<PeerEvent>)
    ensures
        state.connected.subset_of(state.after_all(events).connected),
        state.after_all(events).settings == state.settings,
        state.after_all(events).info_hash == state.info_hash,
    decreases events.len(),
{
    if events.len() > 0 {
        connected_peers_are_kept(state, events.drop_last());
    }
}

/// No more syncs run than may, after any sequence of events; and a sync has a relay.
pub proof fn syncs_are_limited(state: PeerState, events: Seq<PeerEvent>)
    requires
        state.running_syncs <= MAX_SYNCS,
    ensures
        state.after_all(events).running_syncs <= MAX_SYNCS,
        state.after_all(events).next_action() matches TickActionView::Sync(urls) ==> urls.len() > 0,
    decreases events.len(),
{
    if events.len() > 0 {
        syncs_are_limited(state, events.drop_last());
    }
}

/// Whether an event leaves the external port as it is.
pub open spec fn keeps_port(event: PeerEvent) -> bool {
    match event {
        PeerEvent::Mapped(Some(_)) => false,
        PeerEvent::TimedOut => false,
        _ => true,
    }
}

proof fn port_is_kept(state: PeerState, events: Seq<PeerEvent>)
    requires
        forall|i: int| 0 <= i < events.len() ==> keeps_port(#[trigger] events[i]),
    ensures
        state.after_all(events).announcement() == state.announcement(),
    decreases events.len(),
{
    if events.len() > 0 {
        assert(keeps_port(events[events.len() - 1]));
        port_is_kept(state, events.drop_last());
        connected_peers_are_kept(state, events.drop_last());
    }
}

/// Without an explicit public address, and where a probe finds a way to map a port, the start
/// is to map the local port; and once its external port is known, whatever happened before,
/// that is announced under the info hash of the archive until another one is known.
pub proof fn a_mapped_port_is_announced(
    settings: Settings,
    probe: ProbeOutput,
    before: Seq<PeerEvent>,
    port: u16,
    later: Seq<PeerEvent>,
)
    requires
        settings.dht_public_ip is None,
        probe.any(),
        forall|i: int| 0 <= i < later.len() ==> keeps_port(#[trigger] later[i]),
    ensures
        ({
            let start = PeerState::initial(settings, archive_info_hash());
            &&& start.start_action() == StartAction::Probe
            &&& start.probed_action(Some(probe)) == StartAction::MapPort(settings.port())
            &&& start.after_all(before).mapped(Some(port)).after_all(later).announcement() == (
                archive_info_hash(),
                port,
            )
        }),
{
    let start = PeerState::initial(settings, archive_info_hash());
    connected_peers_are_kept(start, before);
    port_is_kept(start.after_all(before).mapped(Some(port)), later);
}

/// The local port is announced, under the info hash of the archive, until a port mapping is
/// known; and again once the wait for one is over, until one is known.
pub proof fn the_local_port_is_announced(settings: Settings, before: Seq<PeerEvent>, later: Seq<PeerEvent>)
    requires
        forall|i: int| 0 <= i < later.len() ==> keeps_port(#[trigger] later[i]),
    ensures
        ({
            let start = PeerState::initial(settings, archive_info_hash());
            &&& start.after_all(later).announcement() == (archive_info_hash(), settings.port())
            &&& start.after_all(before).timed_out().after_all(later).announcement() == (
                archive_info_hash(),
                settings.port(),
            )
        }),
{
    let start = PeerState::initial(settings, archive_info_hash());
    connected_peers_are_kept(start, before);
    port_is_kept(start, later);
    port_is_kept(start.after_all(before).timed_out(), later);
}

} // verus!
