//! The settings of the server, and what holds where they are silent.
use crate::address::Endpoint;
use crate::address::Ipv4;
use crate::DEFAULT_RELAY_PORT;
use vstd::prelude::*;

verus! {

/// The settings of the server.
#[derive(Debug)]
pub struct Settings {
    /// Path to store events.
    pub database_dir: Option<String>,
    /// List of relays to bootstrap from.
    pub relays: Vec<String>,
    /// Listen address of the relay.
    pub listen: Option<Endpoint>,
    /// Explicit announcement address.
    pub dht_public_ip: Option<Ipv4>,
    /// Path to the web interface.
    pub web_dir: Option<String>,
    /// Enable the DHT for peer connections.
    pub use_dht: Option<bool>,
    /// Only allow one event per info hash.
    pub distinct_info_hash: Option<bool>,
    /// Relay document, as JSON.
    pub relay_document: String,
}

/// The text of a setting, or `default` where it is not set.
pub open spec fn text_or(setting: Option<String>, default: Seq<char>) -> Seq<char> {
    match setting {
        Some(text) => text@,
        None => default,
    }
}

fn or_default(setting: &Option<String>, default: &str) -> (text: String)
    ensures
        text@ == text_or(*setting, default@),
{
    match setting {
        Some(text) => text.clone(),
        None => default.to_owned(),
    }
}

/// The path of the settings file: the one given, or `./config.yml`.
pub fn config_path(given: &Option<String>) -> (path: String)
    ensures
        path@ == text_or(*given, "./config.yml"@),
        given matches Some(text) ==> path@ == text@,
        given is None ==> path@ == "./config.yml"@,
{
    or_default(given, "./config.yml")
}

/// The address that the relay listens on by default: the local host, on the default port.
pub open spec fn default_endpoint() -> Endpoint {
    Endpoint::V4 { ip: Ipv4 { a: 127, b: 0, c: 0, d: 1 }, port: DEFAULT_RELAY_PORT }
}

/// The port of the settings is that of the listen address, of either kind, or else the
/// default one.
pub proof fn the_port_is_that_of_the_address(settings: Settings)
    ensures
        settings.listen matches Some(Endpoint::V4 { port, .. }) ==> settings.port() == port,
        settings.listen matches Some(Endpoint::V6 { port, .. }) ==> settings.port() == port,
        settings.listen is None ==> settings.port() == 7777,
{
}

impl Settings {
    /// The port that the relay listens on.
    pub open spec fn port(self) -> u16 {
        match self.listen {
            Some(endpoint) => endpoint.port_of(),
            None => DEFAULT_RELAY_PORT,
        }
    }

    /// Where events are stored.
    pub fn database_path(&self) -> (path: String)
        ensures
            path@ == text_or(self.database_dir, "./data"@),
            self.database_dir matches Some(text) ==> path@ == text@,
            self.database_dir is None ==> path@ == "./data"@,
    {
        or_default(&self.database_dir, "./data")
    }

    /// Where the files of the web interface are.
    pub fn web_path(&self) -> (path: String)
        ensures
            path@ == text_or(self.web_dir, "www"@),
            self.web_dir matches Some(text) ==> path@ == text@,
            self.web_dir is None ==> path@ == "www"@,
    {
        or_default(&self.web_dir, "www")
    }

    /// The address that the relay listens on.
    pub fn listen_endpoint(&self) -> (endpoint: Endpoint)
        ensures
            endpoint == (match self.listen {
                Some(e) => e,
                None => default_endpoint(),
            }),
            endpoint.port_of() == self.port(),
            self.listen is None ==> endpoint == (Endpoint::V4 { ip: Ipv4 { a: 127, b: 0, c: 0, d: 1 }, port: 7777 }),
    {
        match self.listen {
            Some(endpoint) => endpoint,
            None => Endpoint::V4 {
                ip: Ipv4 { a: 127, b: 0, c: 0, d: 1 },
                port: DEFAULT_RELAY_PORT,
            },
        }
    }

    /// The port that the relay listens on.
    pub fn local_port(&self) -> (port: u16)
        ensures
            port == self.port(),
            self.listen matches Some(Endpoint::V4 { port: p, .. }) ==> port == p,
            self.listen matches Some(Endpoint::V6 { port: p, .. }) ==> port == p,
            self.listen is None ==> port == 7777,
    {
        match self.listen {
            Some(endpoint) => endpoint.port(),
            None => DEFAULT_RELAY_PORT,
        }
    }

    /// Whether peers are found through the DHT; they are unless that is switched off.
    pub fn uses_dht(&self) -> (enabled: bool)
        ensures
            enabled == (self.use_dht != Some(false)),
    {
        match self.use_dht {
            Some(enabled) => enabled,
            None => true,
        }
    }

    /// Whether only one torrent is taken for each info hash; it is not unless switched on.
    pub fn wants_distinct_info_hash(&self) -> (distinct: bool)
        ensures
            distinct == (self.distinct_info_hash == Some(true)),
    {
        match self.distinct_info_hash {
            Some(distinct) => distinct,
            None => false,
        }
    }
}

} // verus!
