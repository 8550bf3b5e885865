use pterodactyl_api::websocket::{
    PteroWebSocketHandle, PteroWebSocketListener, PteroWebSocketStream, WebSocket, WebSocketLink,
    WebSocketLinkProvider, WebSocketMessage,
};
use pterodactyl_api::events::{ServerNetworkStats, ServerStats};
use pterodactyl_api::structs::{PowerSignal, ServerState};
use pterodactyl_api::Error;
use std::cell::RefCell;
use std::rc::Rc;

struct MockStream {
    sent: Rc<RefCell<Vec<String>>>,
    fail_sends: bool,
}

impl PteroWebSocketStream for MockStream {
    fn send_text(&mut self, payload: &str) -> Result<(), Error> {
        if self.fail_sends {
            return Err(Error::Websocket(String::from("send failed")));
        }
        self.sent.borrow_mut().push(payload.to_owned());
        Ok(())
    }

    fn next_message(&mut self) -> Option<Result<WebSocketMessage, Error>> {
        None
    }
}

struct MockProvider {
    fetches: Rc<RefCell<u32>>,
    token: String,
}

impl WebSocketLinkProvider for MockProvider {
    fn fetch_link(&mut self) -> Result<WebSocketLink, Error> {
        *self.fetches.borrow_mut() += 1;
        Ok(WebSocketLink { token: self.token.clone(), socket: String::from("wss://example") })
    }
}

#[derive(Clone, Copy, PartialEq, Eq)]
enum ReadyAction {
    Nothing,
    Disconnect,
    SendTraffic,
}

struct RecListener {
    log: Rc<RefCell<Vec<String>>>,
    stats: Rc<RefCell<Vec<ServerStats>>>,
    ready_action: ReadyAction,
    disconnect_on_console: bool,
    fail_on_status: bool,
}

impl RecListener {
    fn new(log: Rc<RefCell<Vec<String>>>, stats: Rc<RefCell<Vec<ServerStats>>>) -> Self {
        RecListener {
            log,
            stats,
            ready_action: ReadyAction::Nothing,
            disconnect_on_console: false,
            fail_on_status: false,
        }
    }
}

impl<H: PteroWebSocketHandle> PteroWebSocketListener<H> for RecListener {
    fn on_ready(&mut self, handle: &mut H) -> Result<(), Error> {
        self.log.borrow_mut().push(String::from("ready"));
        match self.ready_action {
            ReadyAction::Nothing => {}
            ReadyAction::Disconnect => handle.disconnect(),
            ReadyAction::SendTraffic => {
                handle.request_stats()?;
                handle.request_logs()?;
                handle.send_power_signal(PowerSignal::Restart)?;
                handle.send_command("say hi")?;
            }
        }
        Ok(())
    }

    fn on_status(&mut self, _handle: &mut H, status: ServerState) -> Result<(), Error> {
        self.log.borrow_mut().push(format!("status:{:?}", status));
        if self.fail_on_status {
            return Err(Error::Http(599));
        }
        Ok(())
    }

    fn on_console_output(&mut self, handle: &mut H, output: &str) -> Result<(), Error> {
        self.log.borrow_mut().push(format!("console:{}", output));
        if self.disconnect_on_console {
            handle.disconnect();
        }
        Ok(())
    }

    fn on_stats(&mut self, _handle: &mut H, stats: ServerStats) -> Result<(), Error> {
        self.log.borrow_mut().push(String::from("stats"));
        self.stats.borrow_mut().push(stats);
        Ok(())
    }
}

struct Session {
    ws: WebSocket<MockStream, MockProvider, RecListener>,
    sent: Rc<RefCell<Vec<String>>>,
    fetches: Rc<RefCell<u32>>,
    log: Rc<RefCell<Vec<String>>>,
    stats: Rc<RefCell<Vec<ServerStats>>>,
}

fn make_session(configure: impl FnOnce(&mut RecListener)) -> Session {
    let sent = Rc::new(RefCell::new(Vec::new()));
    let fetches = Rc::new(RefCell::new(0));
    let log = Rc::new(RefCell::new(Vec::new()));
    let stats = Rc::new(RefCell::new(Vec::new()));
    let stream = MockStream { sent: sent.clone(), fail_sends: false };
    let provider = MockProvider { fetches: fetches.clone(), token: String::from("fresh-token") };
    let mut listener = RecListener::new(log.clone(), stats.clone());
    configure(&mut listener);
    let ws = WebSocket::new(stream, provider, listener);
    Session { ws, sent, fetches, log, stats }
}

fn text(frame: &str) -> WebSocketMessage {
    WebSocketMessage::Text(frame.to_owned())
}

#[test]
fn authenticate_sends_auth_frame() {
    let mut s = make_session(|_| {});
    s.ws.authenticate("tok123").unwrap();
    assert_eq!(
        s.sent.borrow().as_slice(),
        &[String::from("{\"event\":\"auth\",\"args\":[\"tok123\"]}")]
    );
}

#[test]
fn ready_then_status_dispatches_once_each() {
    let mut s = make_session(|_| {});
    assert_eq!(s.ws.handle_frame(text("{\"event\":\"auth success\"}")).unwrap(), false);
    assert_eq!(
        s.ws.handle_frame(text("{\"event\":\"status\",\"args\":[\"running\"]}")).unwrap(),
        false
    );
    assert_eq!(
        s.log.borrow().as_slice(),
        &[String::from("ready"), String::from("status:Running")]
    );
}

#[test]
fn status_before_auth_is_rejected_without_dispatch() {
    let mut s = make_session(|_| {});
    let err = s.ws.handle_frame(text("{\"event\":\"status\",\"args\":[\"running\"]}"));
    assert!(matches!(err, Err(Error::UnexpectedMessage)));
    assert!(s.log.borrow().is_empty());
}

#[test]
fn repeated_auth_success_does_not_reinvoke_on_ready() {
    let mut s = make_session(|_| {});
    assert_eq!(s.ws.handle_frame(text("{\"event\":\"auth success\"}")).unwrap(), false);
    assert_eq!(s.ws.handle_frame(text("{\"event\":\"auth success\"}")).unwrap(), false);
    assert_eq!(s.log.borrow().as_slice(), &[String::from("ready")]);
}

#[test]
fn console_output_dispatches_once_per_argument_in_order() {
    let mut s = make_session(|_| {});
    s.ws.handle_frame(text("{\"event\":\"auth success\"}")).unwrap();
    assert_eq!(
        s.ws.handle_frame(text("{\"event\":\"console output\",\"args\":[\"one\",\"two\",\"three\"]}"))
            .unwrap(),
        false
    );
    assert_eq!(
        s.log.borrow().as_slice(),
        &[
            String::from("ready"),
            String::from("console:one"),
            String::from("console:two"),
            String::from("console:three"),
        ]
    );
}

#[test]
fn disconnect_in_callback_stops_the_loop() {
    let mut s = make_session(|l| l.ready_action = ReadyAction::Disconnect);
    let stop = s.ws.handle_frame(text("{\"event\":\"auth success\"}")).unwrap();
    assert!(stop);
    assert_eq!(s.log.borrow().as_slice(), &[String::from("ready")]);
}

#[test]
fn disconnect_takes_effect_after_all_arguments() {
    let mut s = make_session(|l| l.disconnect_on_console = true);
    s.ws.handle_frame(text("{\"event\":\"auth success\"}")).unwrap();
    let stop = s
        .ws
        .handle_frame(text("{\"event\":\"console output\",\"args\":[\"a\",\"b\"]}"))
        .unwrap();
    assert!(stop);
    assert_eq!(
        s.log.borrow().as_slice(),
        &[String::from("ready"), String::from("console:a"), String::from("console:b")]
    );
}

#[test]
fn token_expired_is_the_dedicated_fatal_error() {
    let mut s = make_session(|_| {});
    s.ws.handle_frame(text("{\"event\":\"auth success\"}")).unwrap();
    let err = s.ws.handle_frame(text("{\"event\":\"token expired\"}"));
    assert!(matches!(err, Err(Error::WebsocketTokenExpired)));
}

#[test]
fn token_expired_is_fatal_even_before_readiness() {
    let mut s = make_session(|_| {});
    let err = s.ws.handle_frame(text("{\"event\":\"token expired\"}"));
    assert!(matches!(err, Err(Error::WebsocketTokenExpired)));
    assert!(s.log.borrow().is_empty());
}

#[test]
fn token_expiring_refreshes_once_and_resends_auth() {
    let mut s = make_session(|_| {});
    s.ws.handle_frame(text("{\"event\":\"auth success\"}")).unwrap();
    assert_eq!(s.ws.handle_frame(text("{\"event\":\"token expiring\"}")).unwrap(), false);
    assert_eq!(*s.fetches.borrow(), 1);
    assert_eq!(
        s.sent.borrow().as_slice(),
        &[String::from("{\"event\":\"auth\",\"args\":[\"fresh-token\"]}")]
    );
    assert_eq!(s.log.borrow().as_slice(), &[String::from("ready")]);
}

#[test]
fn stats_event_delivers_the_exact_decoded_structure() {
    let mut s = make_session(|_| {});
    s.ws.handle_frame(text("{\"event\":\"auth success\"}")).unwrap();
    let frame = "{\"event\":\"stats\",\"args\":[\"{\\\"memory_bytes\\\":10,\\\"memory_limit_bytes\\\":100,\\\"cpu_absolute\\\":1.5,\\\"network\\\":{\\\"rx_bytes\\\":1,\\\"tx_bytes\\\":2},\\\"state\\\":\\\"running\\\",\\\"disk_bytes\\\":5}\"]}";
    assert_eq!(s.ws.handle_frame(text(frame)).unwrap(), false);
    assert_eq!(s.log.borrow().as_slice(), &[String::from("ready"), String::from("stats")]);
    let stats = s.stats.borrow();
    assert_eq!(stats.len(), 1);
    let st = &stats[0];
    assert_eq!(st.memory_bytes, 10);
    assert_eq!(st.memory_limit_bytes, 100);
    assert_eq!(st.cpu_absolute, "1.5");
    assert_eq!(st.network, ServerNetworkStats { rx_bytes: 1, tx_bytes: 2 });
    assert_eq!(st.state, ServerState::Running);
    assert_eq!(st.disk_bytes, 5);
}

#[test]
fn handle_sends_encode_and_transmit_in_call_order() {
    let mut s = make_session(|l| l.ready_action = ReadyAction::SendTraffic);
    s.ws.handle_frame(text("{\"event\":\"auth success\"}")).unwrap();
    assert_eq!(
        s.sent.borrow().as_slice(),
        &[
            String::from("{\"event\":\"send stats\",\"args\":[null]}"),
            String::from("{\"event\":\"send logs\",\"args\":[null]}"),
            String::from("{\"event\":\"set state\",\"args\":[\"restart\"]}"),
            String::from("{\"event\":\"send command\",\"args\":[\"say hi\"]}"),
        ]
    );
}

#[test]
fn listener_error_aborts_with_that_error() {
    let mut s = make_session(|l| l.fail_on_status = true);
    s.ws.handle_frame(text("{\"event\":\"auth success\"}")).unwrap();
    let err = s.ws.handle_frame(text("{\"event\":\"status\",\"args\":[\"stopping\"]}"));
    assert!(matches!(err, Err(Error::Http(599))));
}

#[test]
fn unknown_events_are_ignored_when_ready() {
    let mut s = make_session(|_| {});
    s.ws.handle_frame(text("{\"event\":\"auth success\"}")).unwrap();
    assert_eq!(s.ws.handle_frame(text("{\"event\":\"install output\",\"args\":[\"x\"]}")).unwrap(), false);
    assert_eq!(s.log.borrow().as_slice(), &[String::from("ready")]);
}

#[test]
fn non_text_frame_is_an_unexpected_message() {
    let mut s = make_session(|_| {});
    s.ws.handle_frame(text("{\"event\":\"auth success\"}")).unwrap();
    let err = s.ws.handle_frame(WebSocketMessage::NonText);
    assert!(matches!(err, Err(Error::UnexpectedMessage)));
}

#[test]
fn malformed_frame_is_a_json_error() {
    let mut s = make_session(|_| {});
    let err = s.ws.handle_frame(text("not json at all"));
    assert!(matches!(err, Err(Error::Json(_))));
}

#[test]
fn status_without_argument_is_unexpected() {
    let mut s = make_session(|_| {});
    s.ws.handle_frame(text("{\"event\":\"auth success\"}")).unwrap();
    let err = s.ws.handle_frame(text("{\"event\":\"status\"}"));
    assert!(matches!(err, Err(Error::UnexpectedMessage)));
}

#[test]
fn status_with_unknown_state_is_a_json_error() {
    let mut s = make_session(|_| {});
    s.ws.handle_frame(text("{\"event\":\"auth success\"}")).unwrap();
    let err = s.ws.handle_frame(text("{\"event\":\"status\",\"args\":[\"paused\"]}"));
    assert!(matches!(err, Err(Error::Json(_))));
}
