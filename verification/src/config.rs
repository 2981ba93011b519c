//! The validated configuration record the core consumes.
//!
//! Loading and saving the file is the caller's concern; this module owns
//! the record itself, its validation rules, and the construction of the
//! topology from the configured edge map.

use vstd::prelude::*;
use crate::text::str_eq;
use crate::topology::{Edge, Position, Topology};

verus! {

/// The configuration schema version this build reads and writes.
pub const CONFIG_VERSION: u32 = 1;

/// Whether this instance runs as the host or as an agent.
#[derive(Debug, Clone, Copy, PartialEq, Eq, Structural)]
pub enum ConfigMode {
    Host,
    Agent,
}

/// The shared secret. The name is historical: the secret is used as a
/// PSK, not as TLS material.
#[derive(Debug, Clone)]
pub struct TlsConfig {
    /// Must be non-empty and identical on every communicating machine.
    pub psk: String,
}

/// Optional keyboard chords.
#[derive(Debug, Clone)]
pub struct Hotkeys {
    /// A chord that returns focus to the host.
    pub focus_return: Option<String>,
    /// The kill switch: returns focus home unconditionally.
    pub kill_switch: Option<String>,
}

/// Optional tuning of edge crossing and reconnection.
#[derive(Debug, Clone, Copy, PartialEq, Eq, Structural)]
pub struct Behavior {
    /// Pixels from a screen border at which a crossing is declared.
    pub edge_threshold_px: Option<u32>,
    /// Milliseconds the cursor must dwell in the band before crossing.
    pub friction_ms: Option<u64>,
    /// Milliseconds between reconnection attempts.
    pub reconnect_delay_ms: Option<u64>,
}

/// Everything the core needs to run one instance.
#[derive(Debug, Clone)]
pub struct Config {
    /// Schema version, for migration.
    pub version: u32,
    /// This machine's unique name.
    pub self_name: String,
    /// Host or agent.
    pub mode: ConfigMode,
    /// The port to listen on (host) or connect to (agent).
    pub port: u16,
    /// Where the host is; absent means discover it.
    pub host_address: Option<String>,
    /// The shared secret.
    pub tls: TlsConfig,
    /// Edge name (left, right, top, bottom) to neighbor machine name.
    pub edges: Vec<(String, String)>,
    /// Optional keyboard chords.
    pub hotkeys: Option<Hotkeys>,
    /// Optional behavior tuning.
    pub behavior: Option<Behavior>,
}

/// Why a configuration is unusable; fatal at startup.
#[derive(Debug, Clone, Copy, PartialEq, Eq, Structural)]
pub enum ConfigError {
    /// `self_name` is empty.
    EmptyName,
    /// The PSK is empty.
    EmptyPsk,
    /// The port is zero.
    ZeroPort,
}

impl Default for Config {
    /// The stock record: host mode on the application's registered port,
    /// with no secret set yet.
    fn default() -> (r: Config)
        ensures
            r.version == CONFIG_VERSION,
            r.self_name@ == "multishiva"@,
            r.mode == ConfigMode::Host,
            r.port == 53421,
            r.host_address is None,
            r.tls.psk@ == Seq::<char>::empty(),
            r.edges@.len() == 0,
            r.hotkeys is None,
            r.behavior is None,
    {
        Config {
            version: CONFIG_VERSION,
            self_name: String::from_str("multishiva"),
            mode: ConfigMode::Host,
            port: 53421,
            host_address: None,
            tls: TlsConfig { psk: String::new() },
            edges: Vec::new(),
            hotkeys: None,
            behavior: None,
        }
    }
}

impl Config {
    /// Checks the fields the core requires: a machine name, a secret,
    /// and a nonzero port, in that order. An agent without a host
    /// address is fine: discovery finds one.
    pub fn validate(&self) -> (r: Result<(), ConfigError>)
        ensures
            match r {
                Ok(()) => self.self_name@.len() > 0 && self.tls.psk@.len() > 0 && self.port != 0,
                Err(ConfigError::EmptyName) => self.self_name@.len() == 0,
                Err(ConfigError::EmptyPsk) => self.self_name@.len() > 0 && self.tls.psk@.len()
                    == 0,
                Err(ConfigError::ZeroPort) => self.self_name@.len() > 0 && self.tls.psk@.len() > 0
                    && self.port == 0,
            },
    {
        if self.self_name.as_str().is_empty() {
            return Err(ConfigError::EmptyName);
        }
        if self.tls.psk.as_str().is_empty() {
            return Err(ConfigError::EmptyPsk);
        }
        if self.port == 0 {
            return Err(ConfigError::ZeroPort);
        }
        Ok(())
    }

    /// The edge threshold, with the documented default of ten pixels.
    pub fn edge_threshold_px(&self) -> (r: u32)
        ensures
            r as int == spec_edge_threshold(self.behavior),
    {
        match &self.behavior {
            Some(b) => match b.edge_threshold_px {
                Some(t) => t,
                None => 10,
            },
            None => 10,
        }
    }

    /// The friction time, with the documented default of zero.
    pub fn friction_ms(&self) -> (r: u64)
        ensures
            r as int == spec_friction(self.behavior),
    {
        match &self.behavior {
            Some(b) => match b.friction_ms {
                Some(f) => f,
                None => 0,
            },
            None => 0,
        }
    }
}

/// The effective edge threshold of a behavior record.
pub open spec fn spec_edge_threshold(b: Option<Behavior>) -> int {
    match b {
        Some(bb) => match bb.edge_threshold_px {
            Some(t) => t as int,
            None => 10,
        },
        None => 10,
    }
}

/// The effective friction of a behavior record.
pub open spec fn spec_friction(b: Option<Behavior>) -> int {
    match b {
        Some(bb) => match bb.friction_ms {
            Some(f) => f as int,
            None => 0,
        },
        None => 0,
    }
}

/// The edge a configured direction name denotes, if any.
pub open spec fn spec_edge_of_name(dir: Seq<char>) -> Option<Edge> {
    if dir == "right"@ {
        Some(Edge::Right)
    } else if dir == "left"@ {
        Some(Edge::Left)
    } else if dir == "top"@ {
        Some(Edge::Top)
    } else if dir == "bottom"@ {
        Some(Edge::Bottom)
    } else {
        None
    }
}

/// The neighbor the configured edge list assigns to an edge: the last
/// entry under that direction wins, entries under unknown directions are
/// ignored.
pub open spec fn spec_configured_neighbor(edges: Seq<(Seq<char>, Seq<char>)>, e: Edge) -> Option<
    Seq<char>,
>
    decreases edges.len(),
{
    if edges.len() == 0 {
        None
    } else if spec_edge_of_name(edges.last().0) == Some(e) {
        Some(edges.last().1)
    } else {
        spec_configured_neighbor(edges.drop_last(), e)
    }
}

/// Builds the topology the loops consult: the machine itself at the
/// origin, and one neighbor per configured edge, unknown direction names
/// skipped.
pub fn build_topology(config: &Config) -> (r: Topology)
    ensures
        r.wf(),
        r.spec_has_machine(config.self_name@),
        r.machines_seq().len() == 1,
        forall|e: Edge|
            #[trigger] r.spec_neighbor(config.self_name@, e) == spec_configured_neighbor(
                config.edges@.map_values(|p: (String, String)| (p.0@, p.1@)),
                e,
            ),
{
    let ghost all_edges = config.edges@.map_values(|p: (String, String)| (p.0@, p.1@));
    let mut topology = Topology::new();
    topology.add_machine(config.self_name.clone(), Position { x: 0, y: 0 });
    let n = config.edges.len();
    let mut i: usize = 0;
    while i < n
        invariant
            i <= n,
            n == config.edges@.len(),
            all_edges == config.edges@.map_values(|p: (String, String)| (p.0@, p.1@)),
            topology.wf(),
            topology.spec_has_machine(config.self_name@),
            topology.machines_seq().len() == 1,
            forall|e: Edge|
                #[trigger] topology.spec_neighbor(config.self_name@, e)
                    == spec_configured_neighbor(all_edges.take(i as int), e),
        decreases n - i,
    {
        let dir = &config.edges[i].0;
        let target = &config.edges[i].1;
        let edge: Option<Edge> = if str_eq(dir.as_str(), "right") {
            Some(Edge::Right)
        } else if str_eq(dir.as_str(), "left") {
            Some(Edge::Left)
        } else if str_eq(dir.as_str(), "top") {
            Some(Edge::Top)
        } else if str_eq(dir.as_str(), "bottom") {
            Some(Edge::Bottom)
        } else {
            None
        };
        proof {
            assert(all_edges[i as int] == (dir@, target@));
            assert(edge == spec_edge_of_name(all_edges[i as int].0));
        }
        match edge {
            Some(e) => {
                topology.add_edge(config.self_name.clone(), e, target.clone());
            }
            None => {}
        }
        proof {
            assert(all_edges.take(i + 1).drop_last() =~= all_edges.take(i as int));
            assert(all_edges.take(i + 1).last() == all_edges[i as int]);
            assert forall|e2: Edge| #[trigger] topology.spec_neighbor(config.self_name@, e2)
                == spec_configured_neighbor(all_edges.take(i + 1), e2) by {}
        }
        i = i + 1;
    }
    proof {
        assert(all_edges.take(n as int) =~= all_edges);
    }
    topology
}

} // verus!
