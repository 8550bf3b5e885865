use pterodactyl_api::events::{decode_frame, encode_event_frame, parse_stats, IncomingEvent};
use pterodactyl_api::Error;

fn decode_ok(frame: &str) -> (IncomingEvent, Vec<String>) {
    let m = decode_frame(frame).unwrap();
    (m.event, m.args)
}

#[test]
fn decodes_every_recognized_tag() {
    assert_eq!(decode_ok("{\"event\":\"auth success\"}").0, IncomingEvent::AuthSuccess);
    assert_eq!(decode_ok("{\"event\":\"status\"}").0, IncomingEvent::Status);
    assert_eq!(decode_ok("{\"event\":\"console output\"}").0, IncomingEvent::ConsoleOutput);
    assert_eq!(decode_ok("{\"event\":\"stats\"}").0, IncomingEvent::Stats);
    assert_eq!(decode_ok("{\"event\":\"token expiring\"}").0, IncomingEvent::TokenExpiring);
    assert_eq!(decode_ok("{\"event\":\"token expired\"}").0, IncomingEvent::TokenExpired);
    assert_eq!(decode_ok("{\"event\":\"jwt error\"}").0, IncomingEvent::Other);
}

#[test]
fn args_default_to_empty_when_absent() {
    let (_, args) = decode_ok("{\"event\":\"auth success\"}");
    assert!(args.is_empty());
}

#[test]
fn decodes_args_in_order() {
    let (event, args) = decode_ok("{\"event\":\"console output\",\"args\":[\"a\",\"b\",\"c\"]}");
    assert_eq!(event, IncomingEvent::ConsoleOutput);
    assert_eq!(args, vec!["a".to_owned(), "b".to_owned(), "c".to_owned()]);
}

#[test]
fn accepts_members_in_either_order_and_whitespace() {
    let (event, args) =
        decode_ok(" { \"args\" : [ \"running\" ] , \"event\" : \"status\" }  ");
    assert_eq!(event, IncomingEvent::Status);
    assert_eq!(args, vec!["running".to_owned()]);
}

#[test]
fn decodes_string_escapes() {
    let (_, args) = decode_ok(
        "{\"event\":\"console output\",\"args\":[\"say \\\"hi\\\" \\\\ \\n \\t \\u0041\"]}",
    );
    assert_eq!(args[0], "say \"hi\" \\ \n \t A");
}

#[test]
fn decodes_surrogate_pair_escapes() {
    let (_, args) = decode_ok("{\"event\":\"console output\",\"args\":[\"\\uD83D\\uDE00\"]}");
    assert_eq!(args[0], "\u{1F600}");
}

#[test]
fn rejects_malformed_frames() {
    assert!(matches!(decode_frame(""), Err(Error::Json(_))));
    assert!(matches!(decode_frame("[]"), Err(Error::Json(_))));
    assert!(matches!(decode_frame("{\"args\":[\"x\"]}"), Err(Error::Json(_))));
    assert!(matches!(decode_frame("{\"event\":5}"), Err(Error::Json(_))));
    assert!(matches!(decode_frame("{\"event\":\"a\",\"args\":[5]}"), Err(Error::Json(_))));
    assert!(matches!(decode_frame("{\"event\":\"a\"} trailing"), Err(Error::Json(_))));
    assert!(matches!(
        decode_frame("{\"event\":\"a\",\"event\":\"b\"}"),
        Err(Error::Json(_))
    ));
    assert!(matches!(
        decode_frame("{\"event\":\"a\",\"args\":[\"lone \\uD800\"]}"),
        Err(Error::Json(_))
    ));
}

#[test]
fn escapes_decode_before_classification() {
    let (event, args) = {
        let m = decode_frame("{\"event\":\"auth\\u0020success\"}").unwrap();
        (m.event, m.args)
    };
    assert_eq!(event, IncomingEvent::AuthSuccess);
    assert!(args.is_empty());
}

#[test]
fn stats_u64_fields_accept_the_maximum_and_reject_more() {
    let max = parse_stats(
        "{\"memory_bytes\":18446744073709551615,\"memory_limit_bytes\":1,\"cpu_absolute\":0,\"network\":{\"rx_bytes\":0,\"tx_bytes\":0},\"state\":\"offline\",\"disk_bytes\":0}",
    )
    .unwrap();
    assert_eq!(max.memory_bytes, u64::MAX);
    assert!(parse_stats(
        "{\"memory_bytes\":18446744073709551616,\"memory_limit_bytes\":1,\"cpu_absolute\":0,\"network\":{\"rx_bytes\":0,\"tx_bytes\":0},\"state\":\"offline\",\"disk_bytes\":0}"
    )
    .is_none());
}

#[test]
fn encodes_the_envelope_exactly() {
    let args = vec!["one".to_owned(), "two".to_owned()];
    assert_eq!(
        encode_event_frame("send command", &args),
        "{\"event\":\"send command\",\"args\":[\"one\",\"two\"]}"
    );
    let no_args: Vec<String> = Vec::new();
    assert_eq!(encode_event_frame("auth", &no_args), "{\"event\":\"auth\",\"args\":[]}");
}

#[test]
fn encoding_escapes_like_serde() {
    let args = vec!["a \"quote\" and \\ and \n and \u{1}".to_owned()];
    let frame = encode_event_frame("send command", &args);
    let reference: serde_json::Value = serde_json::from_str(
        "{\"event\":\"send command\",\"args\":[\"a \\\"quote\\\" and \\\\ and \\n and \\u0001\"]}",
    )
    .unwrap();
    let parsed: serde_json::Value = serde_json::from_str(&frame).unwrap();
    assert_eq!(parsed, reference);
}

#[test]
fn encode_then_decode_round_trips() {
    let args = vec!["line \"one\"\n".to_owned(), "line two".to_owned()];
    let frame = encode_event_frame("console output", &args);
    let m = decode_frame(&frame).unwrap();
    assert_eq!(m.event, IncomingEvent::ConsoleOutput);
    assert_eq!(m.args, args);
}

#[test]
fn parses_the_stats_payload() {
    let st = parse_stats(
        "{\"memory_bytes\":10,\"memory_limit_bytes\":100,\"cpu_absolute\":1.5,\"network\":{\"rx_bytes\":1,\"tx_bytes\":2},\"state\":\"running\",\"disk_bytes\":5}",
    )
    .unwrap();
    assert_eq!(st.memory_bytes, 10);
    assert_eq!(st.memory_limit_bytes, 100);
    assert_eq!(st.cpu_absolute, "1.5");
    assert_eq!(st.network.rx_bytes, 1);
    assert_eq!(st.network.tx_bytes, 2);
    assert_eq!(st.disk_bytes, 5);
}

#[test]
fn stats_fields_may_come_in_any_order() {
    let st = parse_stats(
        "{\"state\":\"offline\",\"disk_bytes\":7,\"network\":{\"tx_bytes\":4,\"rx_bytes\":3},\"cpu_absolute\":0.25,\"memory_limit_bytes\":20,\"memory_bytes\":2}",
    )
    .unwrap();
    assert_eq!(st.memory_bytes, 2);
    assert_eq!(st.memory_limit_bytes, 20);
    assert_eq!(st.cpu_absolute, "0.25");
    assert_eq!(st.network.rx_bytes, 3);
    assert_eq!(st.network.tx_bytes, 4);
    assert_eq!(st.disk_bytes, 7);
}

#[test]
fn stats_reject_missing_duplicate_or_bad_fields() {
    assert!(parse_stats("{}").is_none());
    assert!(parse_stats(
        "{\"memory_bytes\":10,\"memory_limit_bytes\":100,\"cpu_absolute\":1.5,\"network\":{\"rx_bytes\":1,\"tx_bytes\":2},\"state\":\"running\"}"
    )
    .is_none());
    assert!(parse_stats(
        "{\"memory_bytes\":10,\"memory_bytes\":11,\"memory_limit_bytes\":100,\"cpu_absolute\":1.5,\"network\":{\"rx_bytes\":1,\"tx_bytes\":2},\"state\":\"running\",\"disk_bytes\":5}"
    )
    .is_none());
    assert!(parse_stats(
        "{\"memory_bytes\":-1,\"memory_limit_bytes\":100,\"cpu_absolute\":1.5,\"network\":{\"rx_bytes\":1,\"tx_bytes\":2},\"state\":\"running\",\"disk_bytes\":5}"
    )
    .is_none());
    assert!(parse_stats(
        "{\"memory_bytes\":10,\"memory_limit_bytes\":100,\"cpu_absolute\":1.5,\"network\":{\"rx_bytes\":1,\"tx_bytes\":2},\"state\":\"paused\",\"disk_bytes\":5}"
    )
    .is_none());
}
