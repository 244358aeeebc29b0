use mofa_studio::ipc::{IpcHandler, IpcMessage};
use mofa_studio::json::{serde_json_minimal_parse, JsonValue};
use std::cell::RefCell;
use std::rc::Rc;

#[test]
fn test_parse_ipc_message() {
    let json = r#"{"channel":"test","data":{"foo":"bar"}}"#;
    let msg = IpcMessage::from_js(json);
    assert_eq!(msg.channel, "test");
}

#[test]
fn test_json_parse() {
    let json = r#"{"name":"hello","value":42}"#;
    let parsed = serde_json_minimal_parse(json).unwrap();
    assert_eq!(parsed.get("name").unwrap().as_str(), Some("hello"));
}

#[test]
fn object_payload_is_written_back_as_text() {
    let msg = IpcMessage::from_js(r#"{"channel":"test","data":{"foo":"bar"}}"#);
    assert_eq!(msg.data, r#"{"foo":"bar"}"#);
}

#[test]
fn malformed_input_falls_back_to_default_channel() {
    let msg = IpcMessage::from_js("not json");
    assert_eq!(msg.channel, "default");
    assert_eq!(msg.data, "not json");
}

#[test]
fn string_payload_is_quoted_again() {
    let msg = IpcMessage::from_js(r#"{"channel":"demo","data":"hello"}"#);
    assert_eq!(msg.channel, "demo");
    assert_eq!(msg.data, "\"hello\"");
}

#[test]
fn missing_data_falls_back() {
    let raw = r#"{"channel":"demo"}"#;
    let msg = IpcMessage::from_js(raw);
    assert_eq!(msg.channel, "default");
    assert_eq!(msg.data, raw);
}

#[test]
fn channel_that_is_no_string_falls_back() {
    let raw = r#"{"channel":7,"data":1}"#;
    let msg = IpcMessage::from_js(raw);
    assert_eq!(msg.channel, "default");
    assert_eq!(msg.data, raw);
}

#[test]
fn handler_queues_and_drains() {
    let mut handler: IpcHandler<Box<dyn Fn(&IpcMessage)>> = IpcHandler::new();
    assert!(!handler.has_pending());
    handler.handle_incoming(r#"{"channel":"a","data":1}"#);
    handler.handle_incoming("oops");
    assert!(handler.has_pending());
    let polled = handler.poll_messages();
    assert_eq!(polled.len(), 2);
    assert_eq!(polled[0].channel, "a");
    assert_eq!(polled[0].data, "1");
    assert_eq!(polled[1].channel, "default");
    assert_eq!(polled[1].data, "oops");
    assert!(!handler.has_pending());
    assert!(handler.poll_messages().is_empty());
}

#[test]
fn callbacks_run_in_registration_order_for_their_channel() {
    let seen: Rc<RefCell<Vec<String>>> = Rc::new(RefCell::new(Vec::new()));
    let mut handler: IpcHandler<Box<dyn Fn(&IpcMessage)>> = IpcHandler::new();
    let first = seen.clone();
    handler.on("a", Box::new(move |m: &IpcMessage| first.borrow_mut().push(format!("1:{}", m.data))));
    let other = seen.clone();
    handler.on("b", Box::new(move |m: &IpcMessage| other.borrow_mut().push(format!("b:{}", m.data))));
    let second = seen.clone();
    handler.on("a", Box::new(move |m: &IpcMessage| second.borrow_mut().push(format!("2:{}", m.data))));
    handler.handle_message(IpcMessage { channel: "a".to_string(), data: "x".to_string() });
    assert_eq!(*seen.borrow(), vec!["1:x".to_string(), "2:x".to_string()]);
    assert_eq!(handler.poll_messages().len(), 1);
}

fn round_trip(text: &str) {
    let value = serde_json_minimal_parse(text).unwrap();
    assert_eq!(value.to_string(), text);
    let again = serde_json_minimal_parse(&value.to_string()).unwrap();
    assert_eq!(again.to_string(), text);
}

#[test]
fn written_values_read_back() {
    round_trip("null");
    round_trip("true");
    round_trip("false");
    round_trip("42");
    round_trip("-1.5e+10");
    round_trip(r#""a\\b\"c""#);
    round_trip(r#"[1,[2,[]],{"k":[true,null]}]"#);
    round_trip(r#"{"a":{"b":{"c":"d"}},"e":[]}"#);
}

#[test]
fn string_escapes_are_decoded() {
    let value = serde_json_minimal_parse(r#""a\nb\tc\rd\\e\"f\/g""#).unwrap();
    assert_eq!(value.as_str(), Some("a\nb\tc\rd\\e\"f/g"));
}

#[test]
fn white_space_is_skipped() {
    let value = serde_json_minimal_parse(" \t\n{ \"a\" : [ 1 , 2 ] , \"b\" : null } ").unwrap();
    assert_eq!(value.to_string(), r#"{"a":[1,2],"b":null}"#);
}

#[test]
fn malformed_texts_are_refused() {
    for text in [
        "", "   ", "not json", "{", "[1,2", "[1,]", "{\"a\":1,}", "{\"a\":1,\"a\":2}", "{a:1}",
        "{\"a\" 1}", "\"open", "\"bad\\", "tru", "falsx", "nul", "-", "1.2.3", "1e", "--1", "1-2",
        ".5", "+1", "]", "{'a\":1}",
    ] {
        assert!(serde_json_minimal_parse(text).is_err(), "accepted {:?}", text);
    }
}

#[test]
fn numbers_keep_their_text() {
    for text in ["0", "-0", "12.5", "1.", "-.5", "1e5", "1E-5", "3.14e+2", "1.e3"] {
        let value = serde_json_minimal_parse(text).unwrap();
        assert!(matches!(value, JsonValue::Number(_)));
        assert_eq!(value.to_string(), text);
    }
}

#[test]
fn text_behind_the_value_is_not_read() {
    let value = serde_json_minimal_parse("[1] trailing").unwrap();
    assert_eq!(value.to_string(), "[1]");
}

#[test]
fn get_on_values_that_are_no_object() {
    let value = serde_json_minimal_parse("[1]").unwrap();
    assert!(value.get("a").is_none());
    assert!(value.as_str().is_none());
}
