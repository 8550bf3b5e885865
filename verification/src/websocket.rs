//! The protocol engine for the server-console websocket session: the
//! authentication handshake, the readiness gate, the dispatch loop, and
//! token refresh in place.
//!
//! The transport stream, the credential fetcher and the listener are
//! caller-supplied through traits, so the engine is verified against every
//! behaviour of theirs. The engine records, in ghost state, the callbacks it
//! dispatched and the frames the stream accepted; its contracts and the
//! session laws are stated over those records.

use crate::events::{decode_frame, encode_event_frame, parse_stats, spec_decode_frame,
    spec_event_frame, IncomingEvent, ServerStats, ServerStatsV};
use crate::structs::{PowerSignal, ServerState};
use crate::Error;
use vstd::prelude::*;
use vstd::string::StringExecFns;

verus! {

/// A one-time connection credential: a token and the socket URL it is for.
#[derive(Debug, Clone)]
pub struct WebSocketLink {
    /// The authentication token
    pub token: String,
    /// The websocket URL to connect to
    pub socket: String,
}

/// One frame received from the transport stream.
#[derive(Debug)]
pub enum WebSocketMessage {
    /// A text frame, with its payload
    Text(String),
    /// Any non-text frame
    NonText,
}

/// The duplex message stream a session runs over. An implementation wraps
/// the caller's transport; the engine is verified for every behaviour of it.
pub trait PteroWebSocketStream {
    /// Sends one text frame.
    fn send_text(&mut self, payload: &str) -> Result<(), Error>;

    /// Blocks for the next inbound frame; `None` once the peer has closed
    /// the stream.
    fn next_message(&mut self) -> Option<Result<WebSocketMessage, Error>>;
}

/// The credential fetcher: issues a fresh one-time connection credential,
/// both at session start and for mid-session refresh.
pub trait WebSocketLinkProvider {
    /// Fetches a fresh connection credential.
    fn fetch_link(&mut self) -> Result<WebSocketLink, Error>;
}

/// An event listener that gets called when websocket messages are received.
/// An error returned from any callback aborts the session with that error.
pub trait PteroWebSocketListener<H: PteroWebSocketHandle> {
    /// Called when the websocket is ready to use
    fn on_ready(&mut self, handle: &mut H) -> Result<(), Error>;

    /// Called when a server status message is received
    fn on_status(&mut self, handle: &mut H, status: ServerState) -> Result<(), Error>;

    /// Called when a console output message is received
    fn on_console_output(&mut self, handle: &mut H, output: &str) -> Result<(), Error>;

    /// Called when a server stats message is received
    fn on_stats(&mut self, handle: &mut H, stats: ServerStats) -> Result<(), Error>;
}

/// A handle to control the websocket, valid during one listener callback.
pub trait PteroWebSocketHandle {
    /// Request server stats
    fn request_stats(&mut self) -> Result<(), Error>;

    /// Request server logs
    fn request_logs(&mut self) -> Result<(), Error>;

    /// Send a power signal to the server
    fn send_power_signal(&mut self, signal: PowerSignal) -> Result<(), Error>;

    /// Send a command to the server
    fn send_command(&mut self, command: &str) -> Result<(), Error>;

    /// End the websocket connection
    fn disconnect(&mut self);
}

/// The payload of the frame requesting a stats snapshot.
pub open spec fn stats_request_payload() -> Seq<char> {
    "{\"event\":\"send stats\",\"args\":[null]}"@
}

/// The payload of the frame requesting the server logs.
pub open spec fn logs_request_payload() -> Seq<char> {
    "{\"event\":\"send logs\",\"args\":[null]}"@
}

/// The payload of the authentication frame for a token.
pub open spec fn auth_payload(token: Seq<char>) -> Seq<char> {
    spec_event_frame("auth"@, seq![token])
}

/// The handle the engine passes to listener callbacks: it owns the stream
/// for the session and carries the stop flag and the ghost record of frames
/// the stream accepted.
pub struct WebSocketHandleImpl<S> {
    socket: S,
    stop: bool,
    sent: Ghost<Seq<Seq<char>>>,
}

impl<S> WebSocketHandleImpl<S> {
    /// The frames the stream has accepted through this handle, in order.
    pub closed spec fn sent_frames(&self) -> Seq<Seq<char>> {
        self.sent@
    }

    /// Whether ending the session was requested.
    pub closed spec fn stop_requested(&self) -> bool {
        self.stop
    }
}

impl<S: PteroWebSocketStream> WebSocketHandleImpl<S> {
    /// Sends one frame; on success it is recorded as accepted.
    fn send_frame(&mut self, payload: &str) -> (r: Result<(), Error>)
        ensures
            final(self).stop_requested() == old(self).stop_requested(),
            r is Ok ==> final(self).sent_frames() == old(self).sent_frames().push(payload@),
            r is Err ==> final(self).sent_frames() == old(self).sent_frames(),
    {
        match self.socket.send_text(payload) {
            Ok(()) => {
                self.sent = Ghost(self.sent@.push(payload@));
                Ok(())
            },
            Err(e) => Err(e),
        }
    }

    /// Sends the authentication frame carrying the token.
    fn send_auth(&mut self, token: &str) -> (r: Result<(), Error>)
        ensures
            final(self).stop_requested() == old(self).stop_requested(),
            r is Ok ==> final(self).sent_frames() == old(self).sent_frames().push(
                auth_payload(token@),
            ),
            r is Err ==> final(self).sent_frames() == old(self).sent_frames(),
    {
        let mut args: Vec<String> = Vec::new();
        args.push(token.to_owned());
        let payload = encode_event_frame("auth", &args);
        proof {
            assert(args.deep_view() =~~= seq![token@]);
        }
        self.send_frame(payload.as_str())
    }

    /// Requests a stats snapshot: sends the `send stats` frame.
    pub fn request_stats(&mut self) -> (r: Result<(), Error>)
        ensures
            final(self).stop_requested() == old(self).stop_requested(),
            r is Ok ==> final(self).sent_frames() == old(self).sent_frames().push(
                stats_request_payload(),
            ),
            r is Err ==> final(self).sent_frames() == old(self).sent_frames(),
    {
        let payload = String::from_str("{\"event\":\"send stats\",\"args\":[null]}");
        self.send_frame(payload.as_str())
    }

    /// Requests the server logs: sends the `send logs` frame.
    pub fn request_logs(&mut self) -> (r: Result<(), Error>)
        ensures
            final(self).stop_requested() == old(self).stop_requested(),
            r is Ok ==> final(self).sent_frames() == old(self).sent_frames().push(
                logs_request_payload(),
            ),
            r is Err ==> final(self).sent_frames() == old(self).sent_frames(),
    {
        let payload = String::from_str("{\"event\":\"send logs\",\"args\":[null]}");
        self.send_frame(payload.as_str())
    }

    /// Sends a power signal: the `set state` frame with the encoded signal.
    pub fn send_power_signal(&mut self, signal: PowerSignal) -> (r: Result<(), Error>)
        ensures
            final(self).stop_requested() == old(self).stop_requested(),
            r is Ok ==> final(self).sent_frames() == old(self).sent_frames().push(
                spec_event_frame("set state"@, seq![signal.wire_view()]),
            ),
            r is Err ==> final(self).sent_frames() == old(self).sent_frames(),
    {
        let mut args: Vec<String> = Vec::new();
        args.push(signal.to_wire().to_owned());
        let payload = encode_event_frame("set state", &args);
        proof {
            assert(args.deep_view() =~~= seq![signal.wire_view()]);
        }
        self.send_frame(payload.as_str())
    }

    /// Sends a command: the `send command` frame with the command text.
    pub fn send_command(&mut self, command: &str) -> (r: Result<(), Error>)
        ensures
            final(self).stop_requested() == old(self).stop_requested(),
            r is Ok ==> final(self).sent_frames() == old(self).sent_frames().push(
                spec_event_frame("send command"@, seq![command@]),
            ),
            r is Err ==> final(self).sent_frames() == old(self).sent_frames(),
    {
        let mut args: Vec<String> = Vec::new();
        args.push(command.to_owned());
        let payload = encode_event_frame("send command", &args);
        proof {
            assert(args.deep_view() =~~= seq![command@]);
        }
        self.send_frame(payload.as_str())
    }

    /// Requests ending the session. No frame is sent; the loop ends after
    /// the current callback returns.
    pub fn disconnect(&mut self)
        ensures
            final(self).stop_requested(),
            final(self).sent_frames() == old(self).sent_frames(),
    {
        self.stop = true;
    }
}

impl<S: PteroWebSocketStream> PteroWebSocketHandle for WebSocketHandleImpl<S> {
    fn request_stats(&mut self) -> Result<(), Error> {
        WebSocketHandleImpl::request_stats(self)
    }

    fn request_logs(&mut self) -> Result<(), Error> {
        WebSocketHandleImpl::request_logs(self)
    }

    fn send_power_signal(&mut self, signal: PowerSignal) -> Result<(), Error> {
        WebSocketHandleImpl::send_power_signal(self, signal)
    }

    fn send_command(&mut self, command: &str) -> Result<(), Error> {
        WebSocketHandleImpl::send_command(self, command)
    }

    fn disconnect(&mut self) {
        WebSocketHandleImpl::disconnect(self)
    }
}

/// One callback dispatched to the listener, as recorded in ghost state.
pub enum ListenerCall {
    /// `on_ready`
    Ready,
    /// `on_status`, with the decoded state
    Status(ServerState),
    /// `on_console_output`, with one output line
    Console(Seq<char>),
    /// `on_stats`, with the decoded stats
    Stats(ServerStatsV),
}

/// The console callbacks for the arguments of one console-output event, in
/// argument order.
pub open spec fn console_calls(args: Seq<Seq<char>>) -> Seq<ListenerCall> {
    Seq::new(args.len(), |i: int| ListenerCall::Console(args[i]))
}

/// The readiness state of a session: a strict two-state machine, moved
/// forward exactly once, by the first authentication acknowledgment.
#[derive(Debug, PartialEq, Eq, Copy, Clone, Structural)]
enum SessionPhase {
    /// No authentication acknowledgment has been processed yet
    AwaitingAcknowledgment,
    /// The first acknowledgment has been processed
    Ready,
}

/// The live protocol state for one connection: the handle (owning the
/// stream), the credential fetcher, the listener, and the readiness phase.
pub struct WebSocket<S, P, L> {
    handle: WebSocketHandleImpl<S>,
    provider: P,
    listener: L,
    phase: SessionPhase,
    calls: Ghost<Seq<ListenerCall>>,
}

impl<S, P, L> WebSocket<S, P, L> {
    /// The callbacks dispatched to the listener so far, in order.
    pub closed spec fn dispatched(&self) -> Seq<ListenerCall> {
        self.calls@
    }

    /// Whether the first authentication acknowledgment has been processed.
    pub closed spec fn is_ready(&self) -> bool {
        self.phase is Ready
    }

    /// The frames the stream has accepted, in order.
    pub closed spec fn sent_frames(&self) -> Seq<Seq<char>> {
        self.handle.sent_frames()
    }

    /// Whether ending the session has been requested.
    pub closed spec fn stop_requested(&self) -> bool {
        self.handle.stop_requested()
    }

    /// The session invariant: callbacks are dispatched only once the session
    /// is ready; the first dispatched callback, if any, is `on_ready`; and
    /// `on_ready` is never dispatched again.
    pub open spec fn wf(&self) -> bool {
        &&& (self.is_ready() <==> self.dispatched().len() > 0)
        &&& (self.dispatched().len() > 0 ==> self.dispatched()[0] == ListenerCall::Ready)
        &&& (forall|i: int|
            1 <= i < self.dispatched().len() ==> self.dispatched()[i] != ListenerCall::Ready)
    }

    /// Whether nothing observable changed between two session states.
    pub open spec fn quiet_step(pre: &Self, post: &Self) -> bool {
        &&& post.dispatched() == pre.dispatched()
        &&& post.is_ready() == pre.is_ready()
        &&& post.sent_frames() == pre.sent_frames()
    }
}

/// No callback is dispatched to a listener before the first authentication
/// acknowledgment: in any well-formed session, every dispatched callback
/// other than `on_ready` is preceded by the `on_ready` dispatch.
pub proof fn lemma_ready_precedes_dispatch<S, P, L>(ws: &WebSocket<S, P, L>, i: int)
    requires
        ws.wf(),
        0 <= i < ws.dispatched().len(),
        ws.dispatched()[i] != ListenerCall::Ready,
    ensures
        0 < i,
        ws.dispatched()[0] == ListenerCall::Ready,
{
}

/// `on_ready` is dispatched at most once per session, however many
/// authentication acknowledgments are received.
pub proof fn lemma_on_ready_at_most_once<S, P, L>(ws: &WebSocket<S, P, L>, i: int, j: int)
    requires
        ws.wf(),
        0 <= i < ws.dispatched().len(),
        0 <= j < ws.dispatched().len(),
        ws.dispatched()[i] == ListenerCall::Ready,
        ws.dispatched()[j] == ListenerCall::Ready,
    ensures
        i == j,
{
}

/// The readiness gate: before the first authentication acknowledgment, a
/// frame carrying any other event dispatches nothing to the listener and the
/// step ends the session with an error.
pub proof fn lemma_gate_before_readiness<
    S: PteroWebSocketStream,
    P: WebSocketLinkProvider,
    L: PteroWebSocketListener<WebSocketHandleImpl<S>>,
>(
    pre: &WebSocket<S, P, L>,
    post: &WebSocket<S, P, L>,
    message: Seq<char>,
    r: Result<bool, Error>,
)
    requires
        !pre.is_ready(),
        WebSocket::<S, P, L>::step_spec(pre, post, message, r),
        match spec_decode_frame(message) {
            Some(d) => d.0 != IncomingEvent::AuthSuccess,
            None => true,
        },
    ensures
        post.dispatched() == pre.dispatched(),
        r is Err,
{
}

/// Receiving `token expired` ends the session with the dedicated fatal
/// error, whatever the session state, with nothing dispatched.
pub proof fn lemma_token_expired_is_fatal<
    S: PteroWebSocketStream,
    P: WebSocketLinkProvider,
    L: PteroWebSocketListener<WebSocketHandleImpl<S>>,
>(
    pre: &WebSocket<S, P, L>,
    post: &WebSocket<S, P, L>,
    message: Seq<char>,
    r: Result<bool, Error>,
)
    requires
        WebSocket::<S, P, L>::step_spec(pre, post, message, r),
        match spec_decode_frame(message) {
            Some(d) => d.0 == IncomingEvent::TokenExpired,
            None => false,
        },
    ensures
        r == Err::<bool, Error>(Error::WebsocketTokenExpired),
        post.dispatched() == pre.dispatched(),
{
}

/// A `token expiring` step that succeeds re-sends exactly one authentication
/// frame over the same stream, dispatches nothing to the listener, and the
/// loop continues.
pub proof fn lemma_token_refresh_in_place<
    S: PteroWebSocketStream,
    P: WebSocketLinkProvider,
    L: PteroWebSocketListener<WebSocketHandleImpl<S>>,
>(
    pre: &WebSocket<S, P, L>,
    post: &WebSocket<S, P, L>,
    message: Seq<char>,
    r: Result<bool, Error>,
)
    requires
        pre.is_ready(),
        WebSocket::<S, P, L>::step_spec(pre, post, message, r),
        match spec_decode_frame(message) {
            Some(d) => d.0 == IncomingEvent::TokenExpiring,
            None => false,
        },
        r is Ok,
    ensures
        r == Ok::<bool, Error>(false),
        post.dispatched() == pre.dispatched(),
        exists|t: Seq<char>| post.sent_frames() == pre.sent_frames().push(auth_payload(t)),
{
}

impl<S: PteroWebSocketStream, P: WebSocketLinkProvider, L: PteroWebSocketListener<
    WebSocketHandleImpl<S>,
>> WebSocket<S, P, L> {
    /// Constructs the session state for an open stream: not ready, nothing
    /// dispatched, nothing sent.
    pub fn new(socket: S, provider: P, listener: L) -> (ws: Self)
        ensures
            ws.wf(),
            !ws.is_ready(),
            ws.dispatched() == Seq::<ListenerCall>::empty(),
            ws.sent_frames() == Seq::<Seq<char>>::empty(),
            !ws.stop_requested(),
    {
        WebSocket {
            handle: WebSocketHandleImpl { socket, stop: false, sent: Ghost(Seq::empty()) },
            provider,
            listener,
            phase: SessionPhase::AwaitingAcknowledgment,
            calls: Ghost(Seq::empty()),
        }
    }

    /// The dispatch relation of one step: how one inbound text frame takes
    /// the session from `pre` to `post` with result `r`. This is the
    /// protocol's dispatch table: a frame that does not decode is a `Json`
    /// error; `token expired` is the dedicated fatal error whatever the
    /// session state; any other event before readiness is an
    /// `UnexpectedMessage` error; an acknowledgment dispatches `on_ready`
    /// only the first time; status, console and stats events dispatch their
    /// callbacks when ready, console once per argument in order; `token
    /// expiring` refreshes the credential and re-sends the authentication
    /// frame over the same stream, with no callback; unknown events are
    /// ignored.
    pub open spec fn step_spec(
        pre: &Self,
        post: &Self,
        message: Seq<char>,
        r: Result<bool, Error>,
    ) -> bool {
        match spec_decode_frame(message) {
            None => {
                &&& Self::quiet_step(pre, post)
                &&& match r {
                    Err(e) => e is Json,
                    Ok(_) => false,
                }
            },
            Some(d) => {
                let event = d.0;
                let args = d.1;
                if event == IncomingEvent::TokenExpired {
                    &&& Self::quiet_step(pre, post)
                    &&& r == Err::<bool, Error>(Error::WebsocketTokenExpired)
                } else if !pre.is_ready() && event != IncomingEvent::AuthSuccess {
                    &&& Self::quiet_step(pre, post)
                    &&& r == Err::<bool, Error>(Error::UnexpectedMessage)
                } else {
                    match event {
                        IncomingEvent::AuthSuccess => {
                            if pre.is_ready() {
                                &&& Self::quiet_step(pre, post)
                                &&& r == Ok::<bool, Error>(false)
                            } else {
                                &&& post.is_ready()
                                &&& post.dispatched() == pre.dispatched().push(
                                    ListenerCall::Ready,
                                )
                                &&& match r {
                                    Ok(b) => b == post.stop_requested(),
                                    Err(_) => true,
                                }
                            }
                        },
                        IncomingEvent::Status => {
                            if args.len() == 0 {
                                &&& Self::quiet_step(pre, post)
                                &&& r == Err::<bool, Error>(Error::UnexpectedMessage)
                            } else {
                                match ServerState::spec_from_wire(args[0]) {
                                    None => {
                                        &&& Self::quiet_step(pre, post)
                                        &&& match r {
                                            Err(e) => e is Json,
                                            Ok(_) => false,
                                        }
                                    },
                                    Some(st) => {
                                        &&& post.dispatched() == pre.dispatched().push(
                                            ListenerCall::Status(st),
                                        )
                                        &&& match r {
                                            Ok(b) => b == post.stop_requested(),
                                            Err(_) => true,
                                        }
                                    },
                                }
                            }
                        },
                        IncomingEvent::ConsoleOutput => {
                            match r {
                                Ok(b) => {
                                    &&& post.dispatched() == pre.dispatched() + console_calls(
                                        args,
                                    )
                                    &&& b == post.stop_requested()
                                },
                                Err(_) => exists|k: int|
                                    0 <= k <= args.len() && post.dispatched() == pre.dispatched()
                                        + console_calls(args.take(k)),
                            }
                        },
                        IncomingEvent::Stats => {
                            if args.len() == 0 {
                                &&& Self::quiet_step(pre, post)
                                &&& r == Err::<bool, Error>(Error::UnexpectedMessage)
                            } else {
                                match crate::events::spec_parse_stats(args[0]) {
                                    None => {
                                        &&& Self::quiet_step(pre, post)
                                        &&& match r {
                                            Err(e) => e is Json,
                                            Ok(_) => false,
                                        }
                                    },
                                    Some(sv) => {
                                        &&& post.dispatched() == pre.dispatched().push(
                                            ListenerCall::Stats(sv),
                                        )
                                        &&& match r {
                                            Ok(b) => b == post.stop_requested(),
                                            Err(_) => true,
                                        }
                                    },
                                }
                            }
                        },
                        IncomingEvent::TokenExpiring => {
                            match r {
                                Ok(b) => {
                                    &&& b == false
                                    &&& post.dispatched() == pre.dispatched()
                                    &&& post.is_ready() == pre.is_ready()
                                    &&& exists|t: Seq<char>|
                                        post.sent_frames() == pre.sent_frames().push(
                                            auth_payload(t),
                                        )
                                },
                                Err(_) => Self::quiet_step(pre, post),
                            }
                        },
                        IncomingEvent::Other => {
                            &&& Self::quiet_step(pre, post)
                            &&& r == Ok::<bool, Error>(false)
                        },
                        _ => false,
                    }
                }
            },
        }
    }

    /// Handles one inbound text frame, dispatching by its decoded tag as
    /// [`Self::step_spec`] prescribes. Returns `Ok(true)` exactly when a
    /// callback requested ending the session.
    pub fn handle_message(&mut self, message: &str) -> (r: Result<bool, Error>)
        requires
            old(self).wf(),
        ensures
            final(self).wf(),
            old(self).is_ready() ==> final(self).is_ready(),
            Self::step_spec(old(self), final(self), message@, r),
    {
        self.handle.stop = false;
        let msg = match decode_frame(message) {
            Ok(m) => m,
            Err(e) => {
                return Err(e);
            },
        };
        if msg.event == IncomingEvent::TokenExpired {
            return Err(Error::WebsocketTokenExpired);
        }
        if self.phase != SessionPhase::Ready && msg.event != IncomingEvent::AuthSuccess {
            return Err(Error::UnexpectedMessage);
        }
        let ghost decoded = spec_decode_frame(message@)->0;
        let ghost args = decoded.1;
        match msg.event {
            IncomingEvent::AuthSuccess => {
                if self.phase == SessionPhase::Ready {
                    return Ok(false);
                }
                self.phase = SessionPhase::Ready;
                self.calls = Ghost(self.calls@.push(ListenerCall::Ready));
                match self.listener.on_ready(&mut self.handle) {
                    Ok(()) => Ok(self.handle.stop),
                    Err(e) => Err(e),
                }
            },
            IncomingEvent::Status => {
                if msg.args.len() == 0 {
                    return Err(Error::UnexpectedMessage);
                }
                proof {
                    assert(msg.args.deep_view()[0] == msg.args@[0]@);
                }
                let st = match ServerState::from_wire(msg.args[0].as_str()) {
                    Some(st) => st,
                    None => {
                        return Err(Error::Json(String::new()));
                    },
                };
                self.calls = Ghost(self.calls@.push(ListenerCall::Status(st)));
                match self.listener.on_status(&mut self.handle, st) {
                    Ok(()) => Ok(self.handle.stop),
                    Err(e) => Err(e),
                }
            },
            IncomingEvent::ConsoleOutput => {
                let n = msg.args.len();
                let mut k: usize = 0;
                while k < n
                    invariant
                        self.wf(),
                        self.is_ready(),
                        old(self).is_ready(),
                        old(self).wf(),
                        spec_decode_frame(message@) == Some::<(IncomingEvent, Seq<Seq<char>>)>(
                            (IncomingEvent::ConsoleOutput, args),
                        ),
                        k <= n,
                        n == msg.args@.len(),
                        msg.args.deep_view() == args,
                        args.len() == n,
                        self.calls@ == old(self).calls@ + console_calls(args.take(k as int)),
                    decreases n - k,
                {
                    proof {
                        assert(msg.args.deep_view()[k as int] == msg.args@[k as int]@);
                    }
                    self.calls = Ghost(
                        self.calls@.push(ListenerCall::Console(msg.args@[k as int]@)),
                    );
                    proof {
                        assert(console_calls(args.take(k + 1)) =~= console_calls(
                            args.take(k as int),
                        ).push(ListenerCall::Console(args[k as int])));
                        assert(self.calls@ =~= old(self).calls@ + console_calls(args.take(k + 1)));
                    }
                    match self.listener.on_console_output(&mut self.handle, msg.args[k].as_str()) {
                        Ok(()) => {},
                        Err(e) => {
                            proof {
                                assert(0 <= k + 1 <= args.len() && self.calls@ == old(self).calls@
                                    + console_calls(args.take(k + 1)));
                            }
                            return Err(e);
                        },
                    }
                    k = k + 1;
                }
                proof {
                    assert(args.take(n as int) =~= args);
                }
                Ok(self.handle.stop)
            },
            IncomingEvent::Stats => {
                if msg.args.len() == 0 {
                    return Err(Error::UnexpectedMessage);
                }
                proof {
                    assert(msg.args.deep_view()[0] == msg.args@[0]@);
                }
                let stats = match parse_stats(msg.args[0].as_str()) {
                    Some(st) => st,
                    None => {
                        return Err(Error::Json(String::new()));
                    },
                };
                self.calls = Ghost(self.calls@.push(ListenerCall::Stats(stats@)));
                match self.listener.on_stats(&mut self.handle, stats) {
                    Ok(()) => Ok(self.handle.stop),
                    Err(e) => Err(e),
                }
            },
            IncomingEvent::TokenExpiring => {
                let link = match self.provider.fetch_link() {
                    Ok(link) => link,
                    Err(e) => {
                        return Err(e);
                    },
                };
                match self.handle.send_auth(link.token.as_str()) {
                    Ok(()) => {
                        proof {
                            assert(exists|t: Seq<char>|
                                self.handle.sent_frames() == old(
                                    self,
                                ).handle.sent_frames().push(auth_payload(t))) by {
                                assert(self.handle.sent_frames() == old(
                                    self,
                                ).handle.sent_frames().push(auth_payload(link.token@)));
                            }
                        }
                        Ok(false)
                    },
                    Err(e) => Err(e),
                }
            },
            IncomingEvent::Other => Ok(false),
            IncomingEvent::TokenExpired => Err(Error::WebsocketTokenExpired),
        }
    }

    /// Sends the authentication frame carrying `token`: the first outbound
    /// frame of every session.
    pub fn authenticate(&mut self, token: &str) -> (r: Result<(), Error>)
        requires
            old(self).wf(),
        ensures
            final(self).wf(),
            final(self).is_ready() == old(self).is_ready(),
            final(self).dispatched() == old(self).dispatched(),
            r is Ok ==> final(self).sent_frames() == old(self).sent_frames().push(
                auth_payload(token@),
            ),
            r is Err ==> final(self).sent_frames() == old(self).sent_frames(),
    {
        self.handle.send_auth(token)
    }

    /// Handles one inbound frame of any kind: a non-text frame is an
    /// `UnexpectedMessage` error and ends the session; a text frame is
    /// dispatched as [`Self::step_spec`] prescribes. The caller's read loop
    /// ends the session with `Ok(())` once this returns `Ok(true)` or the
    /// peer closes the stream, and with the error once this returns one: no
    /// further frame may be handed in either case.
    pub fn handle_frame(&mut self, frame: WebSocketMessage) -> (r: Result<bool, Error>)
        requires
            old(self).wf(),
        ensures
            final(self).wf(),
            old(self).is_ready() ==> final(self).is_ready(),
            match frame {
                WebSocketMessage::Text(msg) => Self::step_spec(old(self), final(self), msg@, r),
                WebSocketMessage::NonText => Self::quiet_step(old(self), final(self)) && r
                    == Err::<bool, Error>(Error::UnexpectedMessage),
            },
    {
        match frame {
            WebSocketMessage::Text(msg) => self.handle_message(msg.as_str()),
            WebSocketMessage::NonText => Err(Error::UnexpectedMessage),
        }
    }
}

} // verus!
