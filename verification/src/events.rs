//! The event codec: every frame of the wire protocol is a JSON object
//! `{"event": <string>, "args": [<string>, ...]}` with `args` defaulting to
//! the empty list when absent. Inbound frames decode to an [`IncomingEvent`]
//! tag and its arguments; outbound frames are encoded back into the same
//! envelope shape.

use crate::json::{scan_str_array, scan_str_array_exec, scan_string, scan_string_exec, skip_ws,
    ws_run};
use crate::text::{chars_eq_str, spec_join, str_to_chars, string_from_chars, push_str_chars};
use crate::Error;
use vstd::prelude::*;

verus! {

/// The tag of an inbound event. Unknown tag names decode to `Other` rather
/// than failing: the protocol is forward-compatible with server-emitted
/// events this engine does not act on.
#[derive(Debug, PartialEq, Eq, Hash, Copy, Clone, Structural)]
pub enum IncomingEvent {
    /// Authentication was acknowledged
    AuthSuccess,
    /// A server-state change, with the state as first argument
    Status,
    /// Console output, one line per argument
    ConsoleOutput,
    /// A metrics snapshot, JSON-encoded in the first argument
    Stats,
    /// The connection token is about to expire
    TokenExpiring,
    /// The connection token has expired
    TokenExpired,
    /// Any other event
    Other,
}

/// A decoded inbound frame: the event tag and the ordered string arguments.
#[derive(Debug)]
pub struct IncomingMessage {
    /// The event tag
    pub event: IncomingEvent,
    /// The ordered string arguments
    pub args: Vec<String>,
}

/// The tag a wire event name decodes to.
pub open spec fn spec_classify(name: Seq<char>) -> IncomingEvent {
    if name == "auth success"@ {
        IncomingEvent::AuthSuccess
    } else if name == "status"@ {
        IncomingEvent::Status
    } else if name == "console output"@ {
        IncomingEvent::ConsoleOutput
    } else if name == "stats"@ {
        IncomingEvent::Stats
    } else if name == "token expiring"@ {
        IncomingEvent::TokenExpiring
    } else if name == "token expired"@ {
        IncomingEvent::TokenExpired
    } else {
        IncomingEvent::Other
    }
}

/// Classifies a wire event name.
pub fn classify(name: &Vec<char>) -> (r: IncomingEvent)
    ensures
        r == spec_classify(name@),
{
    if chars_eq_str(name, "auth success") {
        IncomingEvent::AuthSuccess
    } else if chars_eq_str(name, "status") {
        IncomingEvent::Status
    } else if chars_eq_str(name, "console output") {
        IncomingEvent::ConsoleOutput
    } else if chars_eq_str(name, "stats") {
        IncomingEvent::Stats
    } else if chars_eq_str(name, "token expiring") {
        IncomingEvent::TokenExpiring
    } else if chars_eq_str(name, "token expired") {
        IncomingEvent::TokenExpired
    } else {
        IncomingEvent::Other
    }
}

/// One member of the envelope object: the `event` name or the `args` list.
pub enum EnvMember {
    /// The `event` member, with the event name
    Event(Seq<char>),
    /// The `args` member, with the argument list
    Args(Seq<Seq<char>>),
}

enum EnvMemberExec {
    Event(Vec<char>),
    Args(Vec<String>),
}

impl View for EnvMemberExec {
    type V = EnvMember;

    closed spec fn view(&self) -> EnvMember {
        match self {
            EnvMemberExec::Event(e) => EnvMember::Event(e@),
            EnvMemberExec::Args(a) => EnvMember::Args(a.deep_view()),
        }
    }
}

/// One `"key": value` member of the envelope at `i`: the key must be `event`
/// (a string value) or `args` (a string-array value).
pub open spec fn scan_env_member(s: Seq<char>, i: int) -> Option<(EnvMember, nat)> {
    let w = ws_run(s, i);
    let j = i + w;
    match scan_string(s, j) {
        Some((key, n)) => {
            let w2 = ws_run(s, j + n);
            let k = j + n + w2;
            if !(k < s.len() && s[k] == ':') {
                None
            } else {
                let w3 = ws_run(s, k + 1);
                let m = k + 1 + w3;
                if key == "event"@ {
                    match scan_string(s, m) {
                        Some((v, q)) => Some((EnvMember::Event(v), (m - i + q) as nat)),
                        None => None,
                    }
                } else if key == "args"@ {
                    match scan_str_array(s, m) {
                        Some((v, q)) => Some((EnvMember::Args(v), (m - i + q) as nat)),
                        None => None,
                    }
                } else {
                    None
                }
            }
        },
        None => None,
    }
}

fn scan_env_member_exec(s: &Vec<char>, i: usize) -> (r: Option<(EnvMemberExec, usize)>)
    requires
        i <= s@.len(),
    ensures
        match r {
            Some(p) => scan_env_member(s@, i as int) == Some((p.0@, p.1 as nat)) && i + p.1
                <= s@.len(),
            None => scan_env_member(s@, i as int) is None,
        },
{
    let slen = s.len();
    let j = skip_ws(s, i);
    let (key, n) = match scan_string_exec(s, j) {
        Some(p) => p,
        None => {
            return None;
        },
    };
    let k = skip_ws(s, j + n);
    if !(k < slen && s[k] == ':') {
        return None;
    }
    let m = skip_ws(s, k + 1);
    if chars_eq_str(&key, "event") {
        match scan_string_exec(s, m) {
            Some((v, q)) => Some((EnvMemberExec::Event(v), m + q - i)),
            None => None,
        }
    } else if chars_eq_str(&key, "args") {
        match scan_str_array_exec(s, m) {
            Some((v, q)) => Some((EnvMemberExec::Args(v), m + q - i)),
            None => None,
        }
    } else {
        None
    }
}

/// The decoded envelope of a frame: the event name and the arguments, with
/// `args` defaulting to the empty list when the member is absent. The frame
/// must be exactly one JSON object holding an `event` string and optionally
/// an `args` array of strings, in either order.
pub open spec fn parse_envelope(s: Seq<char>) -> Option<(Seq<char>, Seq<Seq<char>>)> {
    let i0 = ws_run(s, 0) as int;
    if !(i0 < s.len() && s[i0] == '{') {
        None
    } else {
        match scan_env_member(s, i0 + 1) {
            Some((m1, n1)) => {
                let q1 = i0 + 1 + n1 + ws_run(s, i0 + 1 + n1);
                if !(q1 < s.len()) {
                    None
                } else if s[q1] == '}' {
                    if q1 + 1 + ws_run(s, q1 + 1) == s.len() {
                        match m1 {
                            EnvMember::Event(e) => Some((e, Seq::<Seq<char>>::empty())),
                            EnvMember::Args(_) => None,
                        }
                    } else {
                        None
                    }
                } else if s[q1] == ',' {
                    match scan_env_member(s, q1 + 1) {
                        Some((m2, n2)) => {
                            let q2 = q1 + 1 + n2 + ws_run(s, q1 + 1 + n2);
                            if !(q2 < s.len() && s[q2] == '}') {
                                None
                            } else if !(q2 + 1 + ws_run(s, q2 + 1) == s.len()) {
                                None
                            } else {
                                match (m1, m2) {
                                    (EnvMember::Event(e), EnvMember::Args(a)) => Some((e, a)),
                                    (EnvMember::Args(a), EnvMember::Event(e)) => Some((e, a)),
                                    _ => None,
                                }
                            }
                        },
                        None => None,
                    }
                } else {
                    None
                }
            },
            None => None,
        }
    }
}

/// The decoded frame: the classified event tag and the arguments.
pub open spec fn spec_decode_frame(s: Seq<char>) -> Option<(IncomingEvent, Seq<Seq<char>>)> {
    match parse_envelope(s) {
        Some((name, args)) => Some((spec_classify(name), args)),
        None => None,
    }
}

/// Decodes one frame of text into an [`IncomingMessage`]. A frame that is
/// not exactly the `{event, args}` envelope is a [`Error::Json`] error.
pub fn decode_frame(text: &str) -> (r: Result<IncomingMessage, Error>)
    ensures
        match spec_decode_frame(text@) {
            Some(d) => match r {
                Ok(m) => m.event == d.0 && m.args.deep_view() == d.1,
                Err(_) => false,
            },
            None => match r {
                Ok(_) => false,
                Err(e) => e is Json,
            },
        },
{
    let s = str_to_chars(text);
    let slen = s.len();
    let i0 = skip_ws(&s, 0);
    if !(i0 < slen && s[i0] == '{') {
        return Err(Error::Json(String::new()));
    }
    let (m1, n1) = match scan_env_member_exec(&s, i0 + 1) {
        Some(p) => p,
        None => {
            return Err(Error::Json(String::new()));
        },
    };
    let q1 = skip_ws(&s, i0 + 1 + n1);
    if !(q1 < slen) {
        return Err(Error::Json(String::new()));
    }
    if s[q1] == '}' {
        if !(skip_ws(&s, q1 + 1) == slen) {
            return Err(Error::Json(String::new()));
        }
        match m1 {
            EnvMemberExec::Event(e) => {
                let event = classify(&e);
                let args: Vec<String> = Vec::new();
                proof {
                    assert(args.deep_view() =~~= Seq::<Seq<char>>::empty());
                }
                Ok(IncomingMessage { event, args })
            },
            EnvMemberExec::Args(_) => Err(Error::Json(String::new())),
        }
    } else if s[q1] == ',' {
        let (m2, n2) = match scan_env_member_exec(&s, q1 + 1) {
            Some(p) => p,
            None => {
                return Err(Error::Json(String::new()));
            },
        };
        let q2 = skip_ws(&s, q1 + 1 + n2);
        if !(q2 < slen && s[q2] == '}') {
            return Err(Error::Json(String::new()));
        }
        if !(skip_ws(&s, q2 + 1) == slen) {
            return Err(Error::Json(String::new()));
        }
        match (m1, m2) {
            (EnvMemberExec::Event(e), EnvMemberExec::Args(a)) => {
                let event = classify(&e);
                Ok(IncomingMessage { event, args: a })
            },
            (EnvMemberExec::Args(a), EnvMemberExec::Event(e)) => {
                let event = classify(&e);
                Ok(IncomingMessage { event, args: a })
            },
            _ => Err(Error::Json(String::new())),
        }
    } else {
        Err(Error::Json(String::new()))
    }
}

// ---------------------------------------------------------------------------
// The stats payload
// ---------------------------------------------------------------------------

/// Server network stats received from a websocket.
#[derive(Debug, PartialEq, Eq, Copy, Clone, Structural)]
pub struct ServerNetworkStats {
    /// Number of bytes received
    pub rx_bytes: u64,
    /// Number of bytes transmitted
    pub tx_bytes: u64,
}

/// Server stats received from a websocket, decoded from the JSON object in
/// the first argument of a stats event. The CPU usage arrives as a JSON
/// number and is kept as its exact numeral text.
#[derive(Debug, Clone)]
pub struct ServerStats {
    /// The used memory of the server in bytes
    pub memory_bytes: u64,
    /// The maximum amount of memory the server can use in bytes
    pub memory_limit_bytes: u64,
    /// The CPU usage of the server, as the number token it arrived as
    pub cpu_absolute: String,
    /// The network statistics of the server
    pub network: ServerNetworkStats,
    /// The current state of the server
    pub state: crate::structs::ServerState,
    /// The disk usage of the server in bytes
    pub disk_bytes: u64,
}

/// The mathematical value of a [`ServerStats`].
pub struct ServerStatsV {
    /// The used memory in bytes
    pub memory_bytes: u64,
    /// The memory limit in bytes
    pub memory_limit_bytes: u64,
    /// The CPU usage number token
    pub cpu_absolute: Seq<char>,
    /// The network statistics
    pub network: ServerNetworkStats,
    /// The server state
    pub state: crate::structs::ServerState,
    /// The disk usage in bytes
    pub disk_bytes: u64,
}

impl View for ServerStats {
    type V = ServerStatsV;

    open spec fn view(&self) -> ServerStatsV {
        ServerStatsV {
            memory_bytes: self.memory_bytes,
            memory_limit_bytes: self.memory_limit_bytes,
            cpu_absolute: self.cpu_absolute@,
            network: self.network,
            state: self.state,
            disk_bytes: self.disk_bytes,
        }
    }
}

/// The fields seen so far while scanning a stats object.
pub struct StatsAcc {
    /// The `memory_bytes` field, if seen
    pub memory_bytes: Option<u64>,
    /// The `memory_limit_bytes` field, if seen
    pub memory_limit_bytes: Option<u64>,
    /// The `cpu_absolute` field, if seen
    pub cpu_absolute: Option<Seq<char>>,
    /// The `network` field, if seen
    pub network: Option<ServerNetworkStats>,
    /// The `state` field, if seen
    pub state: Option<crate::structs::ServerState>,
    /// The `disk_bytes` field, if seen
    pub disk_bytes: Option<u64>,
}

struct StatsAccExec {
    memory_bytes: Option<u64>,
    memory_limit_bytes: Option<u64>,
    cpu_absolute: Option<Vec<char>>,
    network: Option<ServerNetworkStats>,
    state: Option<crate::structs::ServerState>,
    disk_bytes: Option<u64>,
}

impl View for StatsAccExec {
    type V = StatsAcc;

    closed spec fn view(&self) -> StatsAcc {
        StatsAcc {
            memory_bytes: self.memory_bytes,
            memory_limit_bytes: self.memory_limit_bytes,
            cpu_absolute: match self.cpu_absolute {
                Some(ref v) => Some(v@),
                None => None,
            },
            network: self.network,
            state: self.state,
            disk_bytes: self.disk_bytes,
        }
    }
}

/// One member of the nested `network` object: whether it is `rx_bytes` (as
/// opposed to `tx_bytes`) and the value.
pub open spec fn scan_net_member(s: Seq<char>, i: int) -> Option<((bool, u64), nat)> {
    let w = ws_run(s, i);
    let j = i + w;
    match scan_string(s, j) {
        Some((key, n)) => {
            let w2 = ws_run(s, j + n);
            let k = j + n + w2;
            if !(k < s.len() && s[k] == ':') {
                None
            } else {
                let w3 = ws_run(s, k + 1);
                let m = k + 1 + w3;
                match crate::json::scan_u64(s, m) {
                    Some((v, q)) => {
                        if key == "rx_bytes"@ {
                            Some(((true, v), (m - i + q) as nat))
                        } else if key == "tx_bytes"@ {
                            Some(((false, v), (m - i + q) as nat))
                        } else {
                            None
                        }
                    },
                    None => None,
                }
            }
        },
        None => None,
    }
}

fn scan_net_member_exec(s: &Vec<char>, i: usize) -> (r: Option<((bool, u64), usize)>)
    requires
        i <= s@.len(),
    ensures
        match r {
            Some(p) => scan_net_member(s@, i as int) == Some((p.0, p.1 as nat)) && i + p.1
                <= s@.len(),
            None => scan_net_member(s@, i as int) is None,
        },
{
    let slen = s.len();
    let j = skip_ws(s, i);
    let (key, n) = match scan_string_exec(s, j) {
        Some(p) => p,
        None => {
            return None;
        },
    };
    let k = skip_ws(s, j + n);
    if !(k < slen && s[k] == ':') {
        return None;
    }
    let m = skip_ws(s, k + 1);
    let (v, q) = match crate::json::scan_u64_exec(s, m) {
        Some(p) => p,
        None => {
            return None;
        },
    };
    if chars_eq_str(&key, "rx_bytes") {
        Some(((true, v), m + q - i))
    } else if chars_eq_str(&key, "tx_bytes") {
        Some(((false, v), m + q - i))
    } else {
        None
    }
}

/// The nested `network` object at `i`: both `rx_bytes` and `tx_bytes`, each
/// exactly once, in either order.
pub open spec fn scan_network(s: Seq<char>, i: int) -> Option<(ServerNetworkStats, nat)> {
    if !(0 <= i < s.len() && s[i] == '{') {
        None
    } else {
        match scan_net_member(s, i + 1) {
            Some((m1, n1)) => {
                let q1 = i + 1 + n1 + ws_run(s, i + 1 + n1);
                if !(q1 < s.len() && s[q1] == ',') {
                    None
                } else {
                    match scan_net_member(s, q1 + 1) {
                        Some((m2, n2)) => {
                            let q2 = q1 + 1 + n2 + ws_run(s, q1 + 1 + n2);
                            if !(q2 < s.len() && s[q2] == '}') {
                                None
                            } else if m1.0 == m2.0 {
                                None
                            } else {
                                let rx = if m1.0 {
                                    m1.1
                                } else {
                                    m2.1
                                };
                                let tx = if m1.0 {
                                    m2.1
                                } else {
                                    m1.1
                                };
                                Some(
                                    (
                                        ServerNetworkStats { rx_bytes: rx, tx_bytes: tx },
                                        (q2 + 1 - i) as nat,
                                    ),
                                )
                            }
                        },
                        None => None,
                    }
                }
            },
            None => None,
        }
    }
}

fn scan_network_exec(s: &Vec<char>, i: usize) -> (r: Option<(ServerNetworkStats, usize)>)
    requires
        i <= s@.len(),
    ensures
        match r {
            Some(p) => scan_network(s@, i as int) == Some((p.0, p.1 as nat)) && i + p.1
                <= s@.len(),
            None => scan_network(s@, i as int) is None,
        },
{
    let slen = s.len();
    if !(i < slen && s[i] == '{') {
        return None;
    }
    let (m1, n1) = match scan_net_member_exec(s, i + 1) {
        Some(p) => p,
        None => {
            return None;
        },
    };
    let q1 = skip_ws(s, i + 1 + n1);
    if !(q1 < slen && s[q1] == ',') {
        return None;
    }
    let (m2, n2) = match scan_net_member_exec(s, q1 + 1) {
        Some(p) => p,
        None => {
            return None;
        },
    };
    let q2 = skip_ws(s, q1 + 1 + n2);
    if !(q2 < slen && s[q2] == '}') {
        return None;
    }
    if m1.0 == m2.0 {
        return None;
    }
    let rx = if m1.0 {
        m1.1
    } else {
        m2.1
    };
    let tx = if m1.0 {
        m2.1
    } else {
        m1.1
    };
    Some((ServerNetworkStats { rx_bytes: rx, tx_bytes: tx }, q2 + 1 - i))
}

/// One member of the stats object: a known key not seen before, with a value
/// of its kind.
pub open spec fn scan_stats_member(s: Seq<char>, i: int, acc: StatsAcc) -> Option<
    (StatsAcc, nat),
> {
    let w = ws_run(s, i);
    let j = i + w;
    match scan_string(s, j) {
        Some((key, n)) => {
            let w2 = ws_run(s, j + n);
            let k = j + n + w2;
            if !(k < s.len() && s[k] == ':') {
                None
            } else {
                let w3 = ws_run(s, k + 1);
                let m = k + 1 + w3;
                if key == "memory_bytes"@ {
                    if acc.memory_bytes is Some {
                        None
                    } else {
                        match crate::json::scan_u64(s, m) {
                            Some((v, q)) => Some(
                                (StatsAcc { memory_bytes: Some(v), ..acc }, (m - i + q) as nat),
                            ),
                            None => None,
                        }
                    }
                } else if key == "memory_limit_bytes"@ {
                    if acc.memory_limit_bytes is Some {
                        None
                    } else {
                        match crate::json::scan_u64(s, m) {
                            Some((v, q)) => Some(
                                (
                                    StatsAcc { memory_limit_bytes: Some(v), ..acc },
                                    (m - i + q) as nat,
                                ),
                            ),
                            None => None,
                        }
                    }
                } else if key == "disk_bytes"@ {
                    if acc.disk_bytes is Some {
                        None
                    } else {
                        match crate::json::scan_u64(s, m) {
                            Some((v, q)) => Some(
                                (StatsAcc { disk_bytes: Some(v), ..acc }, (m - i + q) as nat),
                            ),
                            None => None,
                        }
                    }
                } else if key == "cpu_absolute"@ {
                    if acc.cpu_absolute is Some {
                        None
                    } else {
                        match crate::json::scan_number(s, m) {
                            Some((tok, q)) => Some(
                                (StatsAcc { cpu_absolute: Some(tok), ..acc }, (m - i + q) as nat),
                            ),
                            None => None,
                        }
                    }
                } else if key == "network"@ {
                    if acc.network is Some {
                        None
                    } else {
                        match scan_network(s, m) {
                            Some((nw, q)) => Some(
                                (StatsAcc { network: Some(nw), ..acc }, (m - i + q) as nat),
                            ),
                            None => None,
                        }
                    }
                } else if key == "state"@ {
                    if acc.state is Some {
                        None
                    } else {
                        match scan_string(s, m) {
                            Some((v, q)) => match crate::structs::ServerState::spec_from_wire(v) {
                                Some(st) => Some(
                                    (StatsAcc { state: Some(st), ..acc }, (m - i + q) as nat),
                                ),
                                None => None,
                            },
                            None => None,
                        }
                    }
                } else {
                    None
                }
            }
        },
        None => None,
    }
}

fn scan_stats_member_exec(s: &Vec<char>, i: usize, acc: StatsAccExec) -> (r: Option<
    (StatsAccExec, usize),
>)
    requires
        i <= s@.len(),
    ensures
        match r {
            Some(p) => scan_stats_member(s@, i as int, acc@) == Some((p.0@, p.1 as nat)) && i
                + p.1 <= s@.len(),
            None => scan_stats_member(s@, i as int, acc@) is None,
        },
{
    let slen = s.len();
    let j = skip_ws(s, i);
    let (key, n) = match scan_string_exec(s, j) {
        Some(p) => p,
        None => {
            return None;
        },
    };
    let k = skip_ws(s, j + n);
    if !(k < slen && s[k] == ':') {
        return None;
    }
    let m = skip_ws(s, k + 1);
    if chars_eq_str(&key, "memory_bytes") {
        if acc.memory_bytes.is_some() {
            return None;
        }
        match crate::json::scan_u64_exec(s, m) {
            Some((v, q)) => Some((StatsAccExec { memory_bytes: Some(v), ..acc }, m + q - i)),
            None => None,
        }
    } else if chars_eq_str(&key, "memory_limit_bytes") {
        if acc.memory_limit_bytes.is_some() {
            return None;
        }
        match crate::json::scan_u64_exec(s, m) {
            Some((v, q)) => Some(
                (StatsAccExec { memory_limit_bytes: Some(v), ..acc }, m + q - i),
            ),
            None => None,
        }
    } else if chars_eq_str(&key, "disk_bytes") {
        if acc.disk_bytes.is_some() {
            return None;
        }
        match crate::json::scan_u64_exec(s, m) {
            Some((v, q)) => Some((StatsAccExec { disk_bytes: Some(v), ..acc }, m + q - i)),
            None => None,
        }
    } else if chars_eq_str(&key, "cpu_absolute") {
        if acc.cpu_absolute.is_some() {
            return None;
        }
        match crate::json::scan_number_exec(s, m) {
            Some((tok, q)) => Some((StatsAccExec { cpu_absolute: Some(tok), ..acc }, m + q - i)),
            None => None,
        }
    } else if chars_eq_str(&key, "network") {
        if acc.network.is_some() {
            return None;
        }
        match scan_network_exec(s, m) {
            Some((nw, q)) => Some((StatsAccExec { network: Some(nw), ..acc }, m + q - i)),
            None => None,
        }
    } else if chars_eq_str(&key, "state") {
        if acc.state.is_some() {
            return None;
        }
        match scan_string_exec(s, m) {
            Some((v, q)) => {
                let vstr = string_from_chars(&v);
                match crate::structs::ServerState::from_wire(vstr.as_str()) {
                    Some(st) => Some((StatsAccExec { state: Some(st), ..acc }, m + q - i)),
                    None => None,
                }
            },
            None => None,
        }
    } else {
        None
    }
}

/// The members of the stats object from `i` through the closing brace.
pub open spec fn scan_stats_tail(s: Seq<char>, i: int, acc: StatsAcc) -> Option<(StatsAcc, nat)>
    decreases s.len() - i,
{
    if !(0 <= i <= s.len()) {
        None
    } else {
        match scan_stats_member(s, i, acc) {
            Some((acc2, n)) => {
                let w = ws_run(s, i + n);
                let k = i + n + w;
                if !(k < s.len()) {
                    None
                } else if s[k] == ',' {
                    match scan_stats_tail(s, k + 1, acc2) {
                        Some((acc3, m)) => Some((acc3, (n + w + 1 + m) as nat)),
                        None => None,
                    }
                } else if s[k] == '}' {
                    Some((acc2, (n + w + 1) as nat))
                } else {
                    None
                }
            },
            None => None,
        }
    }
}

fn scan_stats_tail_exec(s: &Vec<char>, i: usize, acc: StatsAccExec) -> (r: Option<
    (StatsAccExec, usize),
>)
    requires
        i <= s@.len(),
    ensures
        match r {
            Some(p) => scan_stats_tail(s@, i as int, acc@) == Some((p.0@, p.1 as nat)) && i + p.1
                <= s@.len(),
            None => scan_stats_tail(s@, i as int, acc@) is None,
        },
    decreases s@.len() - i,
{
    let slen = s.len();
    let (acc2, n) = match scan_stats_member_exec(s, i, acc) {
        Some(p) => p,
        None => {
            return None;
        },
    };
    let k = skip_ws(s, i + n);
    if !(k < slen) {
        return None;
    }
    if s[k] == ',' {
        match scan_stats_tail_exec(s, k + 1, acc2) {
            Some((acc3, m)) => Some((acc3, k + 1 + m - i)),
            None => None,
        }
    } else if s[k] == '}' {
        Some((acc2, k + 1 - i))
    } else {
        None
    }
}

/// The stats value a payload decodes to: exactly one JSON object holding all
/// six fields, each once, in any order.
pub open spec fn spec_parse_stats(s: Seq<char>) -> Option<ServerStatsV> {
    let i0 = ws_run(s, 0) as int;
    if !(i0 < s.len() && s[i0] == '{') {
        None
    } else {
        let acc0 = StatsAcc {
            memory_bytes: None,
            memory_limit_bytes: None,
            cpu_absolute: None,
            network: None,
            state: None,
            disk_bytes: None,
        };
        match scan_stats_tail(s, i0 + 1, acc0) {
            Some((acc, n)) => {
                if !(i0 + 1 + n + ws_run(s, i0 + 1 + n) == s.len()) {
                    None
                } else {
                    match (acc.memory_bytes, acc.memory_limit_bytes, acc.cpu_absolute,
                    acc.network, acc.state, acc.disk_bytes) {
                        (Some(mb), Some(ml), Some(cpu), Some(nw), Some(st), Some(db)) => Some(
                            ServerStatsV {
                                memory_bytes: mb,
                                memory_limit_bytes: ml,
                                cpu_absolute: cpu,
                                network: nw,
                                state: st,
                                disk_bytes: db,
                            },
                        ),
                        _ => None,
                    }
                }
            },
            None => None,
        }
    }
}

/// Decodes the stats payload carried by a stats event's first argument.
pub fn parse_stats(text: &str) -> (r: Option<ServerStats>)
    ensures
        match r {
            Some(st) => spec_parse_stats(text@) == Some(st@),
            None => spec_parse_stats(text@) is None,
        },
{
    let s = str_to_chars(text);
    let slen = s.len();
    let i0 = skip_ws(&s, 0);
    if !(i0 < slen && s[i0] == '{') {
        return None;
    }
    let acc0 = StatsAccExec {
        memory_bytes: None,
        memory_limit_bytes: None,
        cpu_absolute: None,
        network: None,
        state: None,
        disk_bytes: None,
    };
    let (acc, n) = match scan_stats_tail_exec(&s, i0 + 1, acc0) {
        Some(p) => p,
        None => {
            return None;
        },
    };
    if !(skip_ws(&s, i0 + 1 + n) == slen) {
        return None;
    }
    match (acc.memory_bytes, acc.memory_limit_bytes, acc.cpu_absolute, acc.network, acc.state,
    acc.disk_bytes) {
        (Some(mb), Some(ml), Some(cpu), Some(nw), Some(st), Some(db)) => Some(
            ServerStats {
                memory_bytes: mb,
                memory_limit_bytes: ml,
                cpu_absolute: string_from_chars(&cpu),
                network: nw,
                state: st,
                disk_bytes: db,
            },
        ),
        _ => None,
    }
}

// ---------------------------------------------------------------------------
// Outbound encoding
// ---------------------------------------------------------------------------

/// The digit char of a hex value below 16, lower case.
pub open spec fn hex_digit(n: nat) -> char {
    if n == 0 {
        '0'
    } else if n == 1 {
        '1'
    } else if n == 2 {
        '2'
    } else if n == 3 {
        '3'
    } else if n == 4 {
        '4'
    } else if n == 5 {
        '5'
    } else if n == 6 {
        '6'
    } else if n == 7 {
        '7'
    } else if n == 8 {
        '8'
    } else if n == 9 {
        '9'
    } else if n == 10 {
        'a'
    } else if n == 11 {
        'b'
    } else if n == 12 {
        'c'
    } else if n == 13 {
        'd'
    } else if n == 14 {
        'e'
    } else {
        'f'
    }
}

/// The JSON escape of one char: quote and backslash get a backslash, the
/// named control characters their short escapes, other control characters a
/// `\u00XX` escape, everything else stands for itself.
pub open spec fn esc_char(c: char) -> Seq<char> {
    if c == '"' {
        seq!['\\', '"']
    } else if c == '\\' {
        seq!['\\', '\\']
    } else if c == '\u{8}' {
        seq!['\\', 'b']
    } else if c == '\u{c}' {
        seq!['\\', 'f']
    } else if c == '\n' {
        seq!['\\', 'n']
    } else if c == '\r' {
        seq!['\\', 'r']
    } else if c == '\t' {
        seq!['\\', 't']
    } else if (c as u32) < 0x20 {
        seq!['\\', 'u', '0', '0', hex_digit((c as u32 / 16) as nat), hex_digit(
            (c as u32 % 16) as nat,
        )]
    } else {
        seq![c]
    }
}

/// The JSON escape of a whole string.
pub open spec fn esc_str(s: Seq<char>) -> Seq<char>
    decreases s.len(),
{
    if s.len() == 0 {
        Seq::<char>::empty()
    } else {
        esc_char(s[0]) + esc_str(s.drop_first())
    }
}

/// Escaping distributes over concatenation.
pub proof fn lemma_esc_str_append(a: Seq<char>, b: Seq<char>)
    ensures
        esc_str(a + b) == esc_str(a) + esc_str(b),
    decreases a.len(),
{
    if a.len() == 0 {
        assert(a + b =~= b);
        assert(esc_str(a) + esc_str(b) =~= esc_str(b));
    } else {
        lemma_esc_str_append(a.drop_first(), b);
        assert((a + b).drop_first() =~= a.drop_first() + b);
        assert(esc_char(a[0]) + (esc_str(a.drop_first()) + esc_str(b)) =~= (esc_char(a[0])
            + esc_str(a.drop_first())) + esc_str(b));
    }
}

/// A string as it is embedded in a frame: quoted and escaped.
pub open spec fn spec_quoted(s: Seq<char>) -> Seq<char> {
    seq!['"'] + esc_str(s) + seq!['"']
}

/// Each argument quoted and escaped.
pub open spec fn quoted_all(args: Seq<Seq<char>>) -> Seq<Seq<char>> {
    Seq::new(args.len(), |i: int| spec_quoted(args[i]))
}

/// The encoded frame for an event name and its arguments: the `{event,
/// args}` envelope, with no whitespace, members in that order.
pub open spec fn spec_event_frame(event: Seq<char>, args: Seq<Seq<char>>) -> Seq<char> {
    "{\"event\":"@ + spec_quoted(event) + ",\"args\":["@ + spec_join(quoted_all(args), ',')
        + "]}"@
}

fn hex_digit_exec(n: u32) -> (r: char)
    requires
        n < 16,
    ensures
        r == hex_digit(n as nat),
{
    if n == 0 {
        '0'
    } else if n == 1 {
        '1'
    } else if n == 2 {
        '2'
    } else if n == 3 {
        '3'
    } else if n == 4 {
        '4'
    } else if n == 5 {
        '5'
    } else if n == 6 {
        '6'
    } else if n == 7 {
        '7'
    } else if n == 8 {
        '8'
    } else if n == 9 {
        '9'
    } else if n == 10 {
        'a'
    } else if n == 11 {
        'b'
    } else if n == 12 {
        'c'
    } else if n == 13 {
        'd'
    } else if n == 14 {
        'e'
    } else {
        'f'
    }
}

/// Appends the escape of one char.
fn push_esc_char(dst: &mut Vec<char>, c: char)
    ensures
        final(dst)@ == old(dst)@ + esc_char(c),
{
    if c == '"' {
        dst.push('\\');
        dst.push('"');
        assert(final(dst)@ =~= old(dst)@ + esc_char(c));
    } else if c == '\\' {
        dst.push('\\');
        dst.push('\\');
        assert(final(dst)@ =~= old(dst)@ + esc_char(c));
    } else if c == '\u{8}' {
        dst.push('\\');
        dst.push('b');
        assert(final(dst)@ =~= old(dst)@ + esc_char(c));
    } else if c == '\u{c}' {
        dst.push('\\');
        dst.push('f');
        assert(final(dst)@ =~= old(dst)@ + esc_char(c));
    } else if c == '\n' {
        dst.push('\\');
        dst.push('n');
        assert(final(dst)@ =~= old(dst)@ + esc_char(c));
    } else if c == '\r' {
        dst.push('\\');
        dst.push('r');
        assert(final(dst)@ =~= old(dst)@ + esc_char(c));
    } else if c == '\t' {
        dst.push('\\');
        dst.push('t');
        assert(final(dst)@ =~= old(dst)@ + esc_char(c));
    } else if (c as u32) < 0x20 {
        let u = c as u32;
        dst.push('\\');
        dst.push('u');
        dst.push('0');
        dst.push('0');
        dst.push(hex_digit_exec(u / 16));
        dst.push(hex_digit_exec(u % 16));
        assert(final(dst)@ =~= old(dst)@ + esc_char(c));
    } else {
        dst.push(c);
        assert(final(dst)@ =~= old(dst)@ + esc_char(c));
    }
}

/// Appends the quoted, escaped form of a string.
fn push_quoted(dst: &mut Vec<char>, s: &Vec<char>)
    ensures
        final(dst)@ == old(dst)@ + spec_quoted(s@),
{
    dst.push('"');
    let n = s.len();
    let mut i: usize = 0;
    while i < n
        invariant
            i <= n,
            n == s@.len(),
            dst@ == old(dst)@ + seq!['"'] + esc_str(s@.take(i as int)),
        decreases n - i,
    {
        push_esc_char(dst, s[i]);
        proof {
            assert(s@.take(i + 1) =~= s@.take(i as int) + seq![s@[i as int]]);
            lemma_esc_str_append(s@.take(i as int), seq![s@[i as int]]);
            assert(seq![s@[i as int]].drop_first() =~= Seq::<char>::empty());
            assert(esc_str(seq![s@[i as int]]) =~= esc_char(s@[i as int]) + esc_str(
                Seq::<char>::empty(),
            ));
            assert(esc_str(seq![s@[i as int]]) =~= esc_char(s@[i as int]));
        }
        i = i + 1;
    }
    dst.push('"');
    proof {
        assert(s@.take(n as int) =~= s@);
        assert(final(dst)@ =~= old(dst)@ + spec_quoted(s@));
    }
}

/// Encodes the outbound frame for an event name and its arguments.
pub fn encode_event_frame(event: &str, args: &Vec<String>) -> (r: String)
    ensures
        r@ == spec_event_frame(event@, args.deep_view()),
{
    let ghost argsv = args.deep_view();
    let mut v: Vec<char> = Vec::new();
    push_str_chars(&mut v, "{\"event\":");
    let ev = str_to_chars(event);
    push_quoted(&mut v, &ev);
    push_str_chars(&mut v, ",\"args\":[");
    let ghost head = "{\"event\":"@ + spec_quoted(event@) + ",\"args\":["@;
    let n = args.len();
    let mut k: usize = 0;
    while k < n
        invariant
            k <= n,
            n == args@.len(),
            argsv == args.deep_view(),
            argsv.len() == n,
            v@ == head + spec_join(quoted_all(argsv).take(k as int), ','),
        decreases n - k,
    {
        if k > 0 {
            v.push(',');
        }
        let a = str_to_chars(args[k].as_str());
        push_quoted(&mut v, &a);
        proof {
            assert(a@ == argsv[k as int]);
            let q = quoted_all(argsv);
            assert(q.take(k + 1) =~= q.take(k as int).push(q[k as int]));
            if k == 0 {
                assert(q.take(1) =~= seq![q[0]]);
                assert(spec_join(q.take(1), ',') == q[0]);
                assert(v@ =~= head + spec_join(q.take(1), ','));
            } else {
                crate::text::lemma_join_snoc(q.take(k as int), q[k as int], ',');
                assert(v@ =~= head + spec_join(q.take(k + 1), ','));
            }
        }
        k = k + 1;
    }
    push_str_chars(&mut v, "]}");
    proof {
        assert(quoted_all(argsv).take(n as int) =~= quoted_all(argsv));
        assert(v@ =~= spec_event_frame(event@, argsv));
    }
    string_from_chars(&v)
}

} // verus!
