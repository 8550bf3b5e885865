//! Shared data types of the client API: server state, power signals, status,
//! limits, and their lower-snake-case wire encodings.

use crate::network::Allocation;
use crate::text::{spec_parse_u64, spec_split, split_chars, str_eq, str_to_chars, parse_u64_str};
use crate::Error;
use vstd::prelude::*;

verus! {

/// The state of a server.
#[derive(Debug, PartialEq, Eq, Hash, Copy, Clone, Structural)]
pub enum ServerState {
    /// The server is offline
    Offline,
    /// The server is starting
    Starting,
    /// The server is running
    Running,
    /// The server is stopping
    Stopping,
}

impl ServerState {
    /// The lower-snake-case wire encoding of this state.
    pub open spec fn wire_view(self) -> Seq<char> {
        match self {
            ServerState::Offline => "offline"@,
            ServerState::Starting => "starting"@,
            ServerState::Running => "running"@,
            ServerState::Stopping => "stopping"@,
        }
    }

    /// Encodes this state as it appears on the wire.
    pub fn to_wire(&self) -> (r: &'static str)
        ensures
            r@ == self.wire_view(),
    {
        match self {
            ServerState::Offline => "offline",
            ServerState::Starting => "starting",
            ServerState::Running => "running",
            ServerState::Stopping => "stopping",
        }
    }

    /// The state a wire string decodes to, if any.
    pub open spec fn spec_from_wire(s: Seq<char>) -> Option<ServerState> {
        if s == "offline"@ {
            Some(ServerState::Offline)
        } else if s == "starting"@ {
            Some(ServerState::Starting)
        } else if s == "running"@ {
            Some(ServerState::Running)
        } else if s == "stopping"@ {
            Some(ServerState::Stopping)
        } else {
            None
        }
    }

    /// Decodes a wire string; `None` for any unrecognized string.
    pub fn from_wire(s: &str) -> (r: Option<ServerState>)
        ensures
            r == ServerState::spec_from_wire(s@),
    {
        if str_eq(s, "offline") {
            Some(ServerState::Offline)
        } else if str_eq(s, "starting") {
            Some(ServerState::Starting)
        } else if str_eq(s, "running") {
            Some(ServerState::Running)
        } else if str_eq(s, "stopping") {
            Some(ServerState::Stopping)
        } else {
            None
        }
    }
}

/// Decoding a state's own wire encoding gives that state back.
pub proof fn lemma_server_state_wire_round_trip(state: ServerState)
    ensures
        ServerState::spec_from_wire(state.wire_view()) == Some(state),
{
    reveal_strlit("offline");
    reveal_strlit("starting");
    reveal_strlit("running");
    reveal_strlit("stopping");
    assert("offline"@.len() == 7);
    assert("starting"@.len() == 8);
    assert("running"@.len() == 7);
    assert("stopping"@.len() == 8);
    assert("offline"@[0] == 'o' && "running"@[0] == 'r');
    assert("starting"@[2] == 'a' && "stopping"@[2] == 'o');
    match state {
        ServerState::Offline => {
            assert(ServerState::spec_from_wire("offline"@) == Some(ServerState::Offline));
        },
        ServerState::Starting => {
            assert(ServerState::spec_from_wire("starting"@) == Some(ServerState::Starting));
        },
        ServerState::Running => {
            assert(ServerState::spec_from_wire("running"@) == Some(ServerState::Running));
        },
        ServerState::Stopping => {
            assert(ServerState::spec_from_wire("stopping"@) == Some(ServerState::Stopping));
        },
    }
}

/// A power signal to send to the server.
#[derive(Debug, PartialEq, Eq, Hash, Copy, Clone, Structural)]
pub enum PowerSignal {
    /// Start the server
    Start,
    /// Stop the server gracefully
    Stop,
    /// Restart the server gracefully
    Restart,
    /// Stop the server forcefully
    Kill,
}

impl PowerSignal {
    /// The lower-case wire encoding of this signal.
    pub open spec fn wire_view(self) -> Seq<char> {
        match self {
            PowerSignal::Start => "start"@,
            PowerSignal::Stop => "stop"@,
            PowerSignal::Restart => "restart"@,
            PowerSignal::Kill => "kill"@,
        }
    }

    /// Encodes this signal as it appears on the wire.
    pub fn to_wire(&self) -> (r: &'static str)
        ensures
            r@ == self.wire_view(),
    {
        match self {
            PowerSignal::Start => "start",
            PowerSignal::Stop => "stop",
            PowerSignal::Restart => "restart",
            PowerSignal::Kill => "kill",
        }
    }

    /// The signal a wire string decodes to, if any.
    pub open spec fn spec_from_wire(s: Seq<char>) -> Option<PowerSignal> {
        if s == "start"@ {
            Some(PowerSignal::Start)
        } else if s == "stop"@ {
            Some(PowerSignal::Stop)
        } else if s == "restart"@ {
            Some(PowerSignal::Restart)
        } else if s == "kill"@ {
            Some(PowerSignal::Kill)
        } else {
            None
        }
    }

    /// Decodes a wire string; `None` for any unrecognized string.
    pub fn from_wire(s: &str) -> (r: Option<PowerSignal>)
        ensures
            r == PowerSignal::spec_from_wire(s@),
    {
        if str_eq(s, "start") {
            Some(PowerSignal::Start)
        } else if str_eq(s, "stop") {
            Some(PowerSignal::Stop)
        } else if str_eq(s, "restart") {
            Some(PowerSignal::Restart)
        } else if str_eq(s, "kill") {
            Some(PowerSignal::Kill)
        } else {
            None
        }
    }
}

/// Decoding a signal's own wire encoding gives that signal back.
pub proof fn lemma_power_signal_wire_round_trip(signal: PowerSignal)
    ensures
        PowerSignal::spec_from_wire(signal.wire_view()) == Some(signal),
{
    reveal_strlit("start");
    reveal_strlit("stop");
    reveal_strlit("restart");
    reveal_strlit("kill");
    assert("start"@.len() == 5);
    assert("stop"@.len() == 4);
    assert("restart"@.len() == 7);
    assert("kill"@.len() == 4);
    assert("stop"@[0] == 's' && "kill"@[0] == 'k');
    match signal {
        PowerSignal::Start => {
            assert(PowerSignal::spec_from_wire("start"@) == Some(PowerSignal::Start));
        },
        PowerSignal::Stop => {
            assert(PowerSignal::spec_from_wire("stop"@) == Some(PowerSignal::Stop));
        },
        PowerSignal::Restart => {
            assert(PowerSignal::spec_from_wire("restart"@) == Some(PowerSignal::Restart));
        },
        PowerSignal::Kill => {
            assert(PowerSignal::spec_from_wire("kill"@) == Some(PowerSignal::Kill));
        },
    }
}

/// The status of a server.
#[derive(Debug, PartialEq, Eq, Hash, Copy, Clone, Structural)]
pub enum ServerStatus {
    /// This server is being installed
    Installing,
    /// The installation of this server has failed
    InstallFailed,
    /// The reinstallation of this server has failed
    ReinstallFailed,
    /// This server has been suspended
    Suspended,
    /// Currently restoring a backup
    RestoringBackup,
}

impl ServerStatus {
    /// The lower-snake-case wire encoding of this status.
    pub open spec fn wire_view(self) -> Seq<char> {
        match self {
            ServerStatus::Installing => "installing"@,
            ServerStatus::InstallFailed => "install_failed"@,
            ServerStatus::ReinstallFailed => "reinstall_failed"@,
            ServerStatus::Suspended => "suspended"@,
            ServerStatus::RestoringBackup => "restoring_backup"@,
        }
    }

    /// The status a wire string decodes to, if any.
    pub open spec fn spec_from_wire(s: Seq<char>) -> Option<ServerStatus> {
        if s == "installing"@ {
            Some(ServerStatus::Installing)
        } else if s == "install_failed"@ {
            Some(ServerStatus::InstallFailed)
        } else if s == "reinstall_failed"@ {
            Some(ServerStatus::ReinstallFailed)
        } else if s == "suspended"@ {
            Some(ServerStatus::Suspended)
        } else if s == "restoring_backup"@ {
            Some(ServerStatus::RestoringBackup)
        } else {
            None
        }
    }

    /// Decodes a wire string; `None` for any unrecognized string.
    pub fn from_wire(s: &str) -> (r: Option<ServerStatus>)
        ensures
            r == ServerStatus::spec_from_wire(s@),
    {
        if str_eq(s, "installing") {
            Some(ServerStatus::Installing)
        } else if str_eq(s, "install_failed") {
            Some(ServerStatus::InstallFailed)
        } else if str_eq(s, "reinstall_failed") {
            Some(ServerStatus::ReinstallFailed)
        } else if str_eq(s, "suspended") {
            Some(ServerStatus::Suspended)
        } else if str_eq(s, "restoring_backup") {
            Some(ServerStatus::RestoringBackup)
        } else {
            None
        }
    }
}

/// Represents an IP and port combination.
#[derive(Debug, Clone)]
pub struct IpAndPort {
    /// The IP
    pub ip: String,
    /// The port
    pub port: u16,
}

/// Limits for various features on the server.
#[derive(Debug, Clone, Copy)]
pub struct ServerFeatureLimits {
    /// The maximum number of databases
    pub databases: Option<u64>,
    /// The maximum number of network allocations
    pub allocations: Option<u64>,
    /// The maximum number of backups
    pub backups: Option<u64>,
}

/// Extra metadata for a server.
#[derive(Debug)]
pub struct ServerRelationships {
    /// The network allocations of this server
    pub allocations: Vec<Allocation>,
}

/// A group of permissions. Keys of `keys` represent permission names, values
/// represent their descriptions.
#[derive(Debug, Clone)]
pub struct PermissionGroup {
    /// The description of this group
    pub description: String,
    /// The permissions in this group, as name/description pairs
    pub keys: Vec<(String, String)>,
}

/// The serde default used for fields that are true when absent.
pub fn bool_true() -> (r: bool)
    ensures
        r,
{
    true
}

/// The thread list a comma-separated string decodes to: every piece must be
/// a `u64` numeral.
pub open spec fn spec_parse_threads(s: Seq<char>) -> Option<Seq<u64>> {
    let parts = spec_split(s, ',');
    if forall|i: int| 0 <= i < parts.len() ==> spec_parse_u64(#[trigger] parts[i]) is Some {
        Some(Seq::new(parts.len(), |i: int| spec_parse_u64(parts[i])->0))
    } else {
        None
    }
}

/// Decodes the `threads` field of a server's limits: absent stays absent, and
/// a present string must be a comma-separated list of `u64` numerals.
pub fn parse_threads(threads: Option<&str>) -> (r: Result<Option<Vec<u64>>, Error>)
    ensures
        match threads {
            None => r == Ok::<Option<Vec<u64>>, Error>(None),
            Some(s) => match spec_parse_threads(s@) {
                Some(vals) => match r {
                    Ok(Some(v)) => v@ == vals,
                    _ => false,
                },
                None => match r {
                    Err(e) => e is Json,
                    _ => false,
                },
            },
        },
{
    let s = match threads {
        None => {
            return Ok(None);
        },
        Some(s) => s,
    };
    let chars = str_to_chars(s);
    let parts = split_chars(&chars, ',');
    let ghost sparts = spec_split(s@, ',');
    let mut vals: Vec<u64> = Vec::new();
    let mut i: usize = 0;
    while i < parts.len()
        invariant
            threads == Some(s),
            sparts == spec_split(s@, ','),
            i <= parts@.len(),
            parts.deep_view() == sparts,
            vals@.len() == i,
            forall|j: int| 0 <= j < i ==> spec_parse_u64(#[trigger] sparts[j]) is Some,
            forall|j: int| 0 <= j < i ==> vals@[j] == spec_parse_u64(#[trigger] sparts[j])->0,
        decreases parts@.len() - i,
    {
        proof {
            crate::text::lemma_chars_deep_view(parts@[i as int]);
            assert(parts@[i as int]@ == sparts[i as int]);
        }
        match parse_u64_str(&parts[i]) {
            Some(n) => {
                vals.push(n);
            },
            None => {
                proof {
                    assert(spec_parse_u64(sparts[i as int]) is None);
                    assert(!(forall|j: int|
                        0 <= j < sparts.len() ==> spec_parse_u64(#[trigger] sparts[j]) is Some))
                        by {
                        assert(0 <= i < sparts.len() && !(spec_parse_u64(sparts[i as int])
                            is Some));
                    };
                }
                return Err(Error::Json(String::new()));
            },
        }
        i = i + 1;
    }
    proof {
        assert(vals@ =~= Seq::new(sparts.len(), |j: int| spec_parse_u64(sparts[j])->0));
    }
    Ok(Some(vals))
}

} // verus!
