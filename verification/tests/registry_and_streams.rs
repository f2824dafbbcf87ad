use std::cell::Cell;
use std::rc::Rc;

use utcp_transports::error::{ErrorKind, TransportError};
use utcp_transports::json::{JsonNumber, JsonValue};
use utcp_transports::table::KeyedTable;
use utcp_transports::transports::common::{
    call_name, collect_items, parse_or_string, parse_reply, request_bytes, socket_request, tool_url, StreamStep,
};
use utcp_transports::transports::registry::{
    communication_protocols_snapshot, register_communication_protocol, CommunicationProtocolRegistry, ProtocolImpl,
};
use utcp_transports::transports::stream::VecStreamResult;

fn s(text: &str) -> JsonValue {
    JsonValue::Str(text.to_string())
}

fn n(v: u64) -> JsonValue {
    JsonValue::Number(JsonNumber::PosInt(v))
}

fn obj(members: Vec<(&str, JsonValue)>) -> JsonValue {
    JsonValue::Object(members.into_iter().map(|(k, v)| (k.to_string(), v)).collect())
}

#[test]
fn registering_custom_plugins_makes_them_available() {
    let key = "myproto_test";
    let mut shared = CommunicationProtocolRegistry::with_default_protocols();
    register_communication_protocol(&mut shared, key, ProtocolImpl::Plugin(1));
    let snapshot = communication_protocols_snapshot(&shared);
    assert!(snapshot.get(key).is_some(), "custom communication protocol should be registered");
    assert_eq!(snapshot.get(key), Some(ProtocolImpl::Plugin(1)));
}

#[test]
fn default_registry_serves_twelve_protocols() {
    let reg = CommunicationProtocolRegistry::with_default_transports();
    let expected = [
        ("http", ProtocolImpl::Http),
        ("cli", ProtocolImpl::Cli),
        ("websocket", ProtocolImpl::WebSocket),
        ("grpc", ProtocolImpl::Grpc),
        ("graphql", ProtocolImpl::Graphql),
        ("tcp", ProtocolImpl::Tcp),
        ("udp", ProtocolImpl::Udp),
        ("sse", ProtocolImpl::Sse),
        ("mcp", ProtocolImpl::Mcp),
        ("webrtc", ProtocolImpl::WebRtc),
        ("http_stream", ProtocolImpl::HttpStream),
        ("text", ProtocolImpl::Text),
    ];
    for (k, p) in expected.iter() {
        assert_eq!(reg.get(k), Some(*p));
    }
    assert_eq!(reg.as_map().len(), 12);
    assert_eq!(reg.get("ftp"), None);
    assert_eq!(CommunicationProtocolRegistry::new().as_map().len(), 0);
}

#[test]
fn register_replaces_and_leaves_other_keys() {
    let mut reg = CommunicationProtocolRegistry::new();
    reg.register("a", ProtocolImpl::Http);
    reg.register("b", ProtocolImpl::Cli);
    reg.register("a", ProtocolImpl::Plugin(9));
    assert_eq!(reg.get("a"), Some(ProtocolImpl::Plugin(9)));
    assert_eq!(reg.get("b"), Some(ProtocolImpl::Cli));
    assert_eq!(reg.as_map().len(), 2);
    reg.register_default_protocols();
    assert_eq!(reg.get("a"), Some(ProtocolImpl::Plugin(9)));
    assert_eq!(reg.get("http"), Some(ProtocolImpl::Http));
}

#[test]
fn keyed_table_insert_get_remove() {
    let mut t: KeyedTable<u8> = KeyedTable::new();
    t.insert("x", 1);
    t.insert("y", 2);
    t.insert("x", 3);
    assert_eq!(t.len(), 2);
    assert_eq!(t.get("x"), Some(&3));
    assert!(t.contains_key("y"));
    assert_eq!(t.remove("y"), Some(2));
    assert_eq!(t.remove("y"), None);
    assert_eq!(t.len(), 1);
}

#[test]
fn vec_stream_iterates_and_closes() {
    let closed = Rc::new(Cell::new(false));
    let closed_clone = closed.clone();
    let mut stream = VecStreamResult::new(
        vec![n(1), obj(vec![("two", n(2))])],
        Some(move || -> Result<(), TransportError> {
            closed_clone.set(true);
            Ok(())
        }),
    );
    assert_eq!(stream.next(), Some(n(1)));
    assert_eq!(stream.next(), Some(obj(vec![("two", n(2))])));
    assert_eq!(stream.next(), None);
    stream.close().unwrap();
    assert!(closed.get());
}

#[test]
fn vec_stream_close_runs_action_once() {
    let runs = Rc::new(Cell::new(0u32));
    let r = runs.clone();
    let mut stream = VecStreamResult::new(
        vec![],
        Some(move || -> Result<(), TransportError> {
            r.set(r.get() + 1);
            Err(TransportError::new(ErrorKind::RemoteError, "close failed"))
        }),
    );
    assert_eq!(stream.next(), None);
    assert_eq!(stream.close().unwrap_err().message(), "close failed");
    assert!(stream.close().is_ok());
    assert_eq!(runs.get(), 1);
}

#[test]
fn call_names_and_tool_urls() {
    assert_eq!(call_name("prov.tool", "prov"), "tool");
    assert_eq!(call_name("tool", "prov"), "tool");
    assert_eq!(call_name("provtool", "prov"), "provtool");
    assert_eq!(call_name("prov.a.b", "prov"), "a.b");
    assert_eq!(tool_url("http://h/base", "t"), "http://h/base/t");
    assert_eq!(tool_url("http://h/base///", "t"), "http://h/base/t");
}

#[test]
fn socket_requests_and_replies() {
    let args = vec![("msg".to_string(), s("hi"))];
    assert_eq!(socket_request("echo", &args), obj(vec![("tool", s("echo")), ("args", obj(vec![("msg", s("hi"))]))]));
    assert_eq!(request_bytes("echo", &args), br#"{"args":{"msg":"hi"},"tool":"echo"}"#.to_vec());
    assert_eq!(parse_reply(b"{\"ok\":1}").unwrap(), obj(vec![("ok", n(1))]));
    let err = parse_reply(b"{oops").unwrap_err();
    assert_eq!(err.kind, ErrorKind::Parse);
    assert_eq!(parse_or_string("[1]"), JsonValue::Array(vec![n(1)]));
    assert_eq!(parse_or_string("x y"), s("x y"));
}

#[test]
fn collect_items_stops_at_first_error() {
    let items = vec![Ok(n(1)), Ok(n(2))];
    assert_eq!(collect_items(items).unwrap(), JsonValue::Array(vec![n(1), n(2)]));
    let items = vec![Ok(n(1)), Err(TransportError::new(ErrorKind::Parse, "first")), Err(TransportError::new(ErrorKind::Parse, "second"))];
    assert_eq!(collect_items(items).unwrap_err().message(), "first");
    let step = StreamStep::one(Ok(n(4)), true);
    assert!(step.finished);
    assert_eq!(step.items.len(), 1);
}

#[test]
fn wrong_provider_names_the_expected_type() {
    let e = utcp_transports::transports::common::wrong_provider("an HttpProvider");
    assert_eq!(e.kind, ErrorKind::WrongProvider);
    assert_eq!(e.message(), "Provider is not an HttpProvider");
}

#[test]
fn tcp_stream_request_ends_with_newline() {
    let args = vec![("a".to_string(), n(1))];
    let mut expected = request_bytes("t", &args);
    expected.push(b'\n');
    assert_eq!(utcp_transports::transports::tcp::TcpTransport::stream_request("t", &args), expected);
    assert_eq!(expected, b"{\"args\":{\"a\":1},\"tool\":\"t\"}\n".to_vec());
}
