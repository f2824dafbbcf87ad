use utcp_transports::auth::{ApiKeyAuth, AuthConfig, AuthType, BasicAuth, CredentialPlacement, OAuth2Auth};
use utcp_transports::error::ErrorKind;
use utcp_transports::json::{JsonNumber, JsonValue};
use utcp_transports::providers::{
    BaseProvider, CliProvider, GrpcProvider, IceServer, McpProvider, ProviderType, TcpProvider, TextProvider,
    UdpProvider, WebRtcProvider,
};
use utcp_transports::transports::cli::CliTransport;
use utcp_transports::transports::graphql::GraphQLTransport;
use utcp_transports::transports::grpc::GrpcTransport;
use utcp_transports::transports::mcp::{McpRoute, McpTransport, RequestIds};
use utcp_transports::transports::tcp::TcpTransport;
use utcp_transports::transports::text::{ScriptKind, TextTransport};
use utcp_transports::transports::udp::UdpTransport;
use utcp_transports::transports::webrtc::{IceCredentialType, WebRtcTransport};

fn api_key(key: &str, name: &str, location: &str) -> AuthConfig {
    AuthConfig::ApiKey(ApiKeyAuth {
        auth_type: AuthType::ApiKey,
        api_key: key.to_string(),
        var_name: name.to_string(),
        location: location.to_string(),
    })
}

fn basic(user: &str, pass: &str) -> AuthConfig {
    AuthConfig::Basic(BasicAuth { auth_type: AuthType::Basic, username: user.to_string(), password: pass.to_string() })
}

fn oauth2(token_url: &str) -> AuthConfig {
    AuthConfig::OAuth2(OAuth2Auth {
        auth_type: AuthType::OAuth2,
        token_url: token_url.to_string(),
        client_id: "id".to_string(),
        client_secret: "secret".to_string(),
        scope: None,
    })
}

fn base(name: &str, provider_type: ProviderType, auth: Option<AuthConfig>) -> BaseProvider {
    BaseProvider { name: name.to_string(), provider_type, auth, allowed_communication_protocols: None }
}

fn s(text: &str) -> JsonValue {
    JsonValue::Str(text.to_string())
}

fn n(v: u64) -> JsonValue {
    JsonValue::Number(JsonNumber::PosInt(v))
}

fn obj(members: Vec<(&str, JsonValue)>) -> JsonValue {
    JsonValue::Object(members.into_iter().map(|(k, v)| (k.to_string(), v)).collect())
}

fn pair(a: &str, b: &str) -> (String, String) {
    (a.to_string(), b.to_string())
}

fn strings(v: &[&str]) -> Vec<String> {
    v.iter().map(|x| x.to_string()).collect()
}

const MANIFEST: &str = r#"{"tools":[{"name":"example","description":"example tool","inputs":{"type":"object"},"outputs":{"type":"object"},"tags":[]}]}"#;

// ---------------------------------------------------------------------------
// CLI
// ---------------------------------------------------------------------------

#[test]
fn format_arguments_handles_types_and_ordering() {
    let transport = CliTransport::new();
    let args = vec![
        ("message".to_string(), s("hello")),
        ("count".to_string(), n(2)),
        ("enabled".to_string(), JsonValue::Bool(true)),
        ("skip".to_string(), JsonValue::Bool(false)),
        ("ids".to_string(), JsonValue::Array(vec![n(1), n(2)])),
    ];
    let formatted = transport.format_arguments(&args);
    assert_eq!(formatted, strings(&["--count", "2", "--enabled", "--ids", "1", "--ids", "2", "--message", "hello"]));
}

#[test]
fn format_arguments_ignores_argument_order() {
    let transport = CliTransport::new();
    let a = vec![("b".to_string(), s("x")), ("a".to_string(), n(1)), ("c".to_string(), JsonValue::Null)];
    let b = vec![("c".to_string(), JsonValue::Null), ("a".to_string(), n(1)), ("b".to_string(), s("x"))];
    assert_eq!(transport.format_arguments(&a), transport.format_arguments(&b));
    assert_eq!(transport.format_arguments(&a), strings(&["--a", "1", "--b", "x", "--c", "null"]));
}

#[test]
fn extract_tools_from_output_parses_manifest() {
    let transport = CliTransport::new();
    let tools = transport.extract_tools_from_output(MANIFEST);
    assert_eq!(tools.len(), 1);
    assert_eq!(tools[0].name, "example");
    assert_eq!(tools[0].description, "example tool");
}

#[test]
fn extract_tools_from_output_reads_lines() {
    let transport = CliTransport::new();
    let out = "noise\n  {\"name\":\"a\",\"inputs\":{\"type\":\"object\"},\"outputs\":{\"type\":\"object\"}}  \n{broken}\n";
    let tools = transport.extract_tools_from_output(out);
    assert_eq!(tools.len(), 1);
    assert_eq!(tools[0].name, "a");
    assert_eq!(tools[0].description, "");
    assert!(transport.tools_from_discovery("   \n").is_empty());
}

#[test]
fn call_tool_stream_not_supported() {
    let transport = CliTransport::new();
    let err = transport.call_tool_stream();
    assert!(err.message().contains("Streaming not supported"));
    assert_eq!(err.kind, ErrorKind::StreamingUnsupported);
}

#[test]
fn cli_command_and_call_arguments() {
    let transport = CliTransport::new();
    assert_eq!(transport.parse_command("  node  tool.js --x ").unwrap(), ("node".to_string(), strings(&["tool.js", "--x"])));
    let err = transport.parse_command(" \t ").unwrap_err();
    assert_eq!(err.kind, ErrorKind::EmptyCommand);
    assert_eq!(err.message(), "Empty command name");
    let prov = CliProvider {
        base: base("cli", ProviderType::Cli, None),
        command_name: "node mock.js --cli-mode".to_string(),
        working_dir: None,
        env_vars: None,
    };
    let (cmd, argv) = transport.call_arguments(&prov, "echo", &vec![("name".to_string(), s("world"))]).unwrap();
    assert_eq!(cmd, "node");
    assert_eq!(argv, strings(&["mock.js", "--cli-mode", "call", "cli", "echo", "--name", "world"]));
    assert_eq!(CliTransport::select_output("out".to_string(), "err".to_string(), 0), "out");
    assert_eq!(CliTransport::select_output("out".to_string(), "err".to_string(), 2), "err");
    assert_eq!(CliTransport::call_result(" {\"ok\":true}\n"), obj(vec![("ok", JsonValue::Bool(true))]));
    assert_eq!(CliTransport::call_result("  plain text \n"), s("plain text"));
}

// ---------------------------------------------------------------------------
// GraphQL
// ---------------------------------------------------------------------------

#[test]
fn introspection_query_lists_root_operation_fields() {
    let q = GraphQLTransport::introspection_query();
    assert_eq!(
        q,
        "\n        query IntrospectionQuery {\n          __schema {\n            queryType { fields { name description } }\n            mutationType { fields { name description } }\n            subscriptionType { fields { name description } }\n          }\n        }"
    );
}

#[test]
fn infer_operation_prefers_explicit_value() {
    assert_eq!(GraphQLTransport::infer_operation("Mutation", "getUser"), "mutation");
    assert_eq!(GraphQLTransport::infer_operation("subscription", "createUser"), "subscription");
    assert_eq!(GraphQLTransport::infer_operation("QUERY", "deleteUser"), "query");
}

#[test]
fn infer_operation_derives_from_tool_name_when_unspecified() {
    assert_eq!(GraphQLTransport::infer_operation("", "subscription_changes"), "subscription");
    assert_eq!(GraphQLTransport::infer_operation("unknown", "createItem"), "mutation");
    assert_eq!(GraphQLTransport::infer_operation("  ", "listItems"), "query");
}

#[test]
fn normalize_arg_value_maps_rust_types_to_graphql_scalars() {
    let (ty, value) = GraphQLTransport::normalize_arg_value("user_id", s("abc"));
    assert_eq!(ty, "ID!");
    assert_eq!(value, s("abc"));
    let (ty, value) = GraphQLTransport::normalize_arg_value("count", n(3));
    assert_eq!(ty, "Int!");
    assert_eq!(value, n(3));
    let price = JsonValue::Number(JsonNumber::Float("1.5".to_string()));
    let (ty, value) = GraphQLTransport::normalize_arg_value("price", JsonValue::Number(JsonNumber::Float("1.5".to_string())));
    assert_eq!(ty, "Float!");
    assert_eq!(value, price);
    let (ty, value) = GraphQLTransport::normalize_arg_value("flags", obj(vec![("a", n(1))]));
    assert_eq!(ty, "String!");
    assert_eq!(value, s("{\"a\":1}"));
}

#[test]
fn graphql_scalars_at_the_edges() {
    assert_eq!(GraphQLTransport::normalize_arg_value("big", n(2147483648)).0, "Float!");
    assert_eq!(GraphQLTransport::normalize_arg_value("max", n(2147483647)).0, "Int!");
    assert_eq!(GraphQLTransport::normalize_arg_value("neg", JsonValue::Number(JsonNumber::NegInt(-2147483648))).0, "Int!");
    assert_eq!(GraphQLTransport::normalize_arg_value("on", JsonValue::Bool(true)).0, "Boolean!");
    assert_eq!(GraphQLTransport::normalize_arg_value("ORDER_ID", s("7")).0, "ID!");
    assert_eq!(GraphQLTransport::normalize_arg_value("x", JsonValue::Null), ("String".to_string(), JsonValue::Null));
    assert_eq!(GraphQLTransport::default_schema().type_, "object");
}

// ---------------------------------------------------------------------------
// gRPC
// ---------------------------------------------------------------------------

fn grpc_provider(auth: Option<AuthConfig>) -> GrpcProvider {
    GrpcProvider::new("grpc".to_string(), "localhost".to_string(), 50051, auth)
}

#[test]
fn apply_auth_sets_basic_header() {
    let transport = GrpcTransport::new();
    let meta = transport.apply_auth(&grpc_provider(Some(basic("user", "pass")))).unwrap();
    assert_eq!(meta, vec![pair("authorization", "Basic dXNlcjpwYXNz")]);
}

#[test]
fn apply_auth_rejects_non_basic() {
    let transport = GrpcTransport::new();
    let err = transport.apply_auth(&grpc_provider(Some(oauth2("https://example.com")))).unwrap_err();
    assert!(err.message().contains("Only basic and api key auth are supported"));
}

#[test]
fn apply_auth_sets_api_key_header() {
    let transport = GrpcTransport::new();
    let meta = transport.apply_auth(&grpc_provider(Some(api_key("token", "x-api-key", "header")))).unwrap();
    assert_eq!(meta, vec![pair("x-api-key", "token")]);
}

#[test]
fn grpc_lowercases_key_names_and_refuses_other_locations() {
    let transport = GrpcTransport::new();
    let meta = transport.apply_auth(&grpc_provider(Some(api_key("t", "X-Api-Key", "HEADER")))).unwrap();
    assert_eq!(meta, vec![pair("x-api-key", "t")]);
    let err = transport.apply_auth(&grpc_provider(Some(api_key("t", "k", "query")))).unwrap_err();
    assert_eq!(err.message(), "gRPC API key auth only supports the 'header' location");
    assert!(transport.apply_auth(&grpc_provider(None)).unwrap().is_empty());
}

#[test]
fn grpc_endpoint_manual_and_results() {
    let transport = GrpcTransport::new();
    let mut prov = grpc_provider(None);
    assert_eq!(transport.endpoint(&prov), "http://localhost:50051");
    prov.use_ssl = true;
    assert_eq!(transport.endpoint(&prov), "https://localhost:50051");
    let tools = transport.tools_from_manual(&vec![pair("echo", "echo tool")]);
    assert_eq!(tools.len(), 1);
    assert_eq!(tools[0].name, "echo");
    assert_eq!(tools[0].description, "echo tool");
    assert_eq!(tools[0].tags, strings(&["grpc"]));
    assert_eq!(tools[0].inputs, GrpcTransport::default_schema());
    assert_eq!(transport.call_result(""), JsonValue::Null);
    assert_eq!(transport.call_result("{\"idx\":1}"), obj(vec![("idx", n(1))]));
    assert_eq!(transport.call_result("not json"), s("not json"));
    assert_eq!(transport.stream_item("").unwrap(), JsonValue::Null);
    assert!(transport.stream_item("{").unwrap_err().message().starts_with("Failed to parse stream item: "));
    assert_eq!(transport.stream_failed("unavailable").message(), "gRPC stream error: unavailable");
    assert_eq!(transport.args_json(&vec![("msg".to_string(), s("hi"))]), "{\"msg\":\"hi\"}");
}

// ---------------------------------------------------------------------------
// Text
// ---------------------------------------------------------------------------

#[test]
fn text_base_path_and_commands() {
    let transport = TextTransport::new();
    assert!(transport.base_path.is_none());
    let transport = transport.with_base_path("/srv/tools".to_string());
    assert_eq!(transport.base_path_for(None), Some("/srv/tools".to_string()));
    let prov = TextProvider { base: base("t", ProviderType::Text, None), base_path: Some("/other".to_string()) };
    assert_eq!(transport.base_path_for(Some(&prov)), Some("/other".to_string()));
    assert_eq!(transport.tools_file("/srv/tools"), "/srv/tools/tools.json");
    let cands = transport.script_candidates("/srv/tools", "sample");
    let paths: Vec<&str> = cands.iter().map(|c| c.path.as_str()).collect();
    assert_eq!(paths, vec!["/srv/tools/sample", "/srv/tools/sample.js", "/srv/tools/sample.sh", "/srv/tools/sample.py"]);
    let picked = transport.pick_script(cands, &vec![false, false, true, true]).unwrap();
    assert_eq!(picked.kind, ScriptKind::Bash);
    assert_eq!(picked.path, "/srv/tools/sample.sh");
    assert!(transport.pick_script(transport.script_candidates("/a", "b"), &vec![false; 4]).is_none());
    assert_eq!(transport.build_command(ScriptKind::Node, "/p/s.js", "{}"), ("node".to_string(), strings(&["/p/s.js", "{}"])));
    assert_eq!(transport.build_command(ScriptKind::Python, "/p/s.py", "{}"), ("python3".to_string(), strings(&["/p/s.py", "{}"])));
    assert_eq!(transport.build_command(ScriptKind::Executable, "/p/s", "{}"), ("/p/s".to_string(), strings(&["{}"])));
}

#[test]
fn text_call_plan_errors() {
    let transport = TextTransport::new();
    let err = transport.call_plan(None, "sample", &vec![]).unwrap_err();
    assert_eq!(err.kind, ErrorKind::MissingConfiguration);
    assert_eq!(err.message(), "Text transport requires base_path configuration to execute tools");
    let transport = transport.with_base_path("/nonexistent/dir/for/tests".to_string());
    let err = transport.call_plan(None, "sample", &vec![]).unwrap_err();
    assert_eq!(err.kind, ErrorKind::ScriptNotFound);
    assert_eq!(err.message(), "Tool script not found for 'sample'");
    assert!(transport.resolve_script("/nonexistent/dir/for/tests", "sample").is_none());
    assert!(transport.call_tool_stream().message().contains("Streaming not supported"));
}

#[test]
fn text_call_plan_for_runs_first_present_script() {
    let transport = TextTransport::new().with_base_path("/srv/tools".to_string());
    let args = vec![("name".to_string(), s("World"))];
    let plan = transport.call_plan_for(None, "test_tool", &args, &vec![false, true]).unwrap();
    assert_eq!(plan.kind, ScriptKind::Node);
    assert_eq!(plan.script_path, "/srv/tools/test_tool.js");
    assert_eq!(plan.program, "node");
    assert_eq!(plan.args, strings(&["/srv/tools/test_tool.js", "{\"name\":\"World\"}"]));
    let plan = transport.call_plan_for(None, "test_tool", &args, &vec![true, true, true, true]).unwrap();
    assert_eq!(plan.kind, ScriptKind::Executable);
    assert_eq!(plan.program, "/srv/tools/test_tool");
    assert_eq!(plan.args, strings(&["{\"name\":\"World\"}"]));
    let plan = transport.call_plan_for(None, "test_tool", &args, &vec![false, false, false, true]).unwrap();
    assert_eq!(plan.kind, ScriptKind::Python);
    assert_eq!(plan.program, "python3");
    let err = transport.call_plan_for(None, "test_tool", &args, &vec![false; 4]).unwrap_err();
    assert_eq!(err.kind, ErrorKind::ScriptNotFound);
    assert_eq!(err.message(), "Tool script not found for 'test_tool'");
    let err = TextTransport::new().call_plan_for(None, "test_tool", &args, &vec![true; 4]).unwrap_err();
    assert_eq!(err.kind, ErrorKind::MissingConfiguration);
    let prov = TextProvider { base: base("t", ProviderType::Text, None), base_path: Some("/other".to_string()) };
    let plan = TextTransport::new().call_plan_for(Some(&prov), "x", &vec![], &vec![false, false, true]).unwrap();
    assert_eq!(plan.kind, ScriptKind::Bash);
    assert_eq!(plan.program, "bash");
    assert_eq!(plan.args, strings(&["/other/x.sh", "{}"]));
}

#[test]
fn mcp_request_ids_count_up_from_one() {
    let mut ids = RequestIds::new();
    assert_eq!(ids.peek(), 1);
    assert_eq!(ids.take(), 1);
    assert_eq!(ids.take(), 2);
    assert_eq!(ids.peek(), 3);
}

#[test]
fn text_tools_file_and_results() {
    let transport = TextTransport::new();
    let arr = r#"[{"name":"a","inputs":{"type":"object"},"outputs":{"type":"object"}}]"#;
    assert_eq!(transport.tools_from_file_contents(arr)[0].name, "a");
    assert_eq!(transport.tools_from_file_contents(MANIFEST)[0].name, "example");
    let partly = r#"[{"name":"a","inputs":{"type":"object"},"outputs":{"type":"object"}},{"x":1}]"#;
    assert!(transport.tools_from_file_contents(partly).is_empty());
    assert!(transport.tools_from_file_contents("nonsense").is_empty());
    assert_eq!(transport.run_result("/p/s.js", true, b"{\"ok\":\"v\"}\n", b""), Ok(obj(vec![("ok", s("v"))])));
    assert_eq!(transport.run_result("/p/s.js", true, b"plain\n", b""), Ok(s("plain\n")));
    let err = transport.run_result("/p/s.js", false, b"", b"boom").unwrap_err();
    assert_eq!(err.kind, ErrorKind::ToolFailed);
    assert_eq!(err.message(), "Tool execution failed (/p/s.js): boom");
    let err = transport.run_result("/p/s.js", false, b"", &[0x62, 0xff]).unwrap_err();
    assert_eq!(err.message(), "Tool execution failed (/p/s.js): b\u{fffd}");
}

// ---------------------------------------------------------------------------
// TCP, UDP
// ---------------------------------------------------------------------------

#[test]
fn socket_transports_address_and_lines() {
    let prov = TcpProvider { base: base("tcp", ProviderType::Tcp, None), host: "127.0.0.1".to_string(), port: 8080, timeout_ms: None };
    assert_eq!(TcpTransport::address(&prov), "127.0.0.1:8080");
    assert!(TcpTransport::new().register_tool_provider().is_empty());
    let step = TcpTransport::stream_line_step("  {\"n\":1}  ");
    assert_eq!(step.items, vec![Ok(obj(vec![("n", n(1))]))]);
    assert!(!step.finished);
    assert!(TcpTransport::stream_line_step("   ").items.is_empty());
    let step = TcpTransport::stream_line_step("{bad");
    assert!(step.finished);
    assert!(step.items[0].as_ref().unwrap_err().message().starts_with("Failed to parse TCP stream JSON: "));
    let uprov = UdpProvider { base: base("udp", ProviderType::Udp, None), host: "localhost".to_string(), port: 0, timeout_ms: None };
    assert_eq!(UdpTransport::address(&uprov), "localhost:0");
    assert_eq!(UdpTransport::new().call_tool_stream().message(), "Streaming not suitable for UDP - use TCP or WebSocket");
}

// ---------------------------------------------------------------------------
// MCP
// ---------------------------------------------------------------------------

#[test]
fn mcp_routes_requests_and_results() {
    let http = McpProvider {
        base: base("m", ProviderType::Mcp, None),
        url: Some("http://x/mcp".to_string()),
        command: None,
        args: None,
        env_vars: None,
        headers: None,
    };
    assert_eq!(McpTransport::<u32>::route(&http).unwrap(), McpRoute::Http);
    let none = McpProvider { url: None, ..http.clone() };
    let err = McpTransport::<u32>::route(&none).unwrap_err();
    assert_eq!(err.message(), "MCP provider must have either 'url' (HTTP) or 'command' (stdio)");
    let req = McpTransport::<u32>::rpc_request("tools/list", McpTransport::<u32>::list_params(), 3);
    assert_eq!(
        req,
        obj(vec![("jsonrpc", s("2.0")), ("method", s("tools/list")), ("params", obj(vec![("cursor", JsonValue::Null)])), ("id", n(3))])
    );
    let ok = obj(vec![("result", n(5))]);
    assert_eq!(McpTransport::<u32>::rpc_result(&ok).unwrap(), n(5));
    let bad = obj(vec![("error", obj(vec![("code", n(1))]))]);
    assert_eq!(McpTransport::<u32>::rpc_result(&bad).unwrap_err().message(), "MCP error: {\"code\":1}");
    let mut t: McpTransport<u32> = McpTransport::new();
    t.keep_process("m", 7);
    assert_eq!(t.process_for("m"), Some(&7));
    let stdio = McpProvider { url: None, command: Some("srv".to_string()), ..http.clone() };
    assert_eq!(t.forget_process(&stdio), Some(7));
    assert_eq!(t.process_for("m"), None);
}

// ---------------------------------------------------------------------------
// WebRTC
// ---------------------------------------------------------------------------

#[test]
fn test_default_schema() {
    let schema = WebRtcTransport::<u32>::default_schema();
    assert_eq!(schema.type_, "object");
    assert!(schema.properties.is_none());
}

#[test]
fn test_apply_auth_api_key_header() {
    let transport: WebRtcTransport<u32> = WebRtcTransport::new();
    let placed = transport.apply_auth(&api_key("secret", "X-API-Key", "header")).unwrap();
    assert_eq!(placed, CredentialPlacement::Header("X-API-Key".to_string(), "secret".to_string()));
}

#[test]
fn test_apply_auth_api_key_query() {
    let transport: WebRtcTransport<u32> = WebRtcTransport::new();
    let placed = transport.apply_auth(&api_key("secret", "key", "query")).unwrap();
    assert_eq!(placed, CredentialPlacement::Query("key".to_string(), "secret".to_string()));
}

#[test]
fn test_apply_auth_basic() {
    let transport: WebRtcTransport<u32> = WebRtcTransport::new();
    let placed = transport.apply_auth(&basic("user", "pass")).unwrap();
    assert_eq!(placed, CredentialPlacement::Header("authorization".to_string(), "Basic dXNlcjpwYXNz".to_string()));
}

#[test]
fn webrtc_refusals_and_messages() {
    let mut transport: WebRtcTransport<u32> = WebRtcTransport::new();
    assert_eq!(transport.apply_auth(&api_key("s", "k", "cookie")).unwrap_err().message(), "Unsupported API key location: cookie");
    assert_eq!(transport.apply_auth(&oauth2("t")).unwrap_err().message(), "OAuth2 auth not yet supported by WebRTC transport");
    let prov = WebRtcProvider {
        base: base("rtc", ProviderType::Webrtc, None),
        signaling_server: "http://sig".to_string(),
        ice_servers: vec![
            IceServer { urls: strings(&["stun:a"]), username: None, credential: None },
            IceServer { urls: strings(&["turn:b"]), username: Some("u".to_string()), credential: Some("c".to_string()) },
        ],
        channel_label: "utcp".to_string(),
        ordered: true,
        max_retransmits: None,
        max_packet_life_time: None,
    };
    let ice = transport.ice_servers(&prov);
    assert_eq!(ice[0].credential_type, IceCredentialType::Unspecified);
    assert_eq!(ice[0].username, "");
    assert_eq!(ice[1].credential_type, IceCredentialType::Password);
    assert_eq!(ice[1].credential, "c");
    assert_eq!(transport.offer_body("v=0"), obj(vec![("type", s("offer")), ("sdp", s("v=0"))]));
    assert_eq!(transport.answer_sdp(&obj(vec![("sdp", s("ans"))])).unwrap(), "ans");
    assert_eq!(transport.answer_sdp(&obj(vec![])).unwrap_err().message(), "Invalid answer from signaling server");
    assert_eq!(transport.list_tools_request(), obj(vec![("method", s("list_tools")), ("params", obj(vec![]))]));
    assert_eq!(
        transport.call_request("echo", &vec![("m".to_string(), n(1))], true),
        obj(vec![("method", s("call_tool_stream")), ("params", obj(vec![("tool", s("echo")), ("args", obj(vec![("m", n(1))]))]))])
    );
    let resp = obj(vec![("error", s("boom"))]);
    assert_eq!(transport.call_response(&resp).unwrap_err().message(), "Tool execution error: \"boom\"");
    assert_eq!(transport.call_response(&obj(vec![("result", n(2))])).unwrap(), n(2));
    assert_eq!(transport.call_response(&obj(vec![])).unwrap_err().message(), "No result in response");
    let listed = obj(vec![(
        "tools",
        JsonValue::Array(vec![obj(vec![("name", s("t")), ("inputs", obj(vec![("type", s(""))])), ("outputs", obj(vec![("type", s("string"))]))])]),
    )]);
    let tools = transport.tools_from_response(&listed).unwrap();
    assert_eq!(tools[0].inputs.type_, "object");
    assert_eq!(tools[0].outputs.type_, "string");
    assert_eq!(transport.tools_from_response(&obj(vec![])).unwrap_err().message(), "Invalid tools response");
    assert!(transport.channel_response(b"{").unwrap_err().message().starts_with("Failed to parse response: "));
    assert_eq!(WebRtcTransport::<u32>::stream_item(b"{\"chunk\":1}").unwrap(), obj(vec![("chunk", n(1))]));
    let e = WebRtcTransport::<u32>::stream_item(b"nope").unwrap_err();
    assert_eq!(e.kind, ErrorKind::Parse);
    assert!(e.message().starts_with("Failed to parse stream item: "));
    assert!(transport.should_cache(&prov));
    transport.cache_connection(&prov, 9);
    assert!(!transport.should_cache(&prov));
    assert_eq!(transport.forget_connection(&prov), Some(9));
    assert!(transport.should_cache(&prov));
}

#[test]
fn mcp_http_plan_orders_headers_and_credentials() {
    let prov = McpProvider {
        base: base("m", ProviderType::Mcp, Some(api_key("k", "token", "query"))),
        url: Some("http://x/mcp".to_string()),
        command: None,
        args: None,
        env_vars: None,
        headers: Some(vec![pair("X-A", "1")]),
    };
    let plan = McpTransport::<u32>::http_plan(&prov, true).unwrap();
    assert_eq!(plan.url, "http://x/mcp");
    assert_eq!(plan.headers, vec![pair("X-A", "1"), pair("Accept", "text/event-stream")]);
    assert_eq!(plan.query, vec![pair("token", "k")]);
    let plan = McpTransport::<u32>::http_plan(&prov, false).unwrap();
    assert_eq!(plan.headers, vec![pair("X-A", "1")]);
    let no_url = McpProvider { url: None, ..prov.clone() };
    assert_eq!(McpTransport::<u32>::http_plan(&no_url, false).unwrap_err().message(), "No URL provided for HTTP MCP provider");
    let oauth = McpProvider { base: base("m", ProviderType::Mcp, Some(oauth2("t"))), ..prov.clone() };
    assert_eq!(
        McpTransport::<u32>::http_plan(&oauth, false).unwrap_err().message(),
        "OAuth2 auth is not yet supported by the MCP transport"
    );
}

#[test]
fn mcp_stdio_lines_and_events() {
    assert_eq!(McpTransport::<u32>::stdio_response("").unwrap_err().message(), "MCP process closed connection");
    assert_eq!(McpTransport::<u32>::stdio_response("{\"result\":[1]}\n").unwrap(), JsonValue::Array(vec![n(1)]));
    let step = McpTransport::<u32>::stdio_stream_step("{\"result\":1,\"final\":true}\n");
    assert_eq!(step.items, vec![Ok(n(1))]);
    assert!(step.finished);
    let step = McpTransport::<u32>::stdio_stream_step("{\"result\":2}\n");
    assert!(!step.finished);
    assert!(McpTransport::<u32>::stdio_stream_step("  \n").items.is_empty());
    let step = McpTransport::<u32>::event_step("{\"x\":1}");
    assert_eq!(step.items, vec![Ok(obj(vec![("x", n(1))]))]);
    let step = McpTransport::<u32>::event_step("nope");
    assert!(step.finished);
    assert!(step.items[0].as_ref().unwrap_err().message().starts_with("Failed to parse SSE event: "));
    let tools = McpTransport::<u32>::tools_from_list(&obj(vec![(
        "tools",
        JsonValue::Array(vec![obj(vec![("name", s("t")), ("inputs", obj(vec![("type", s("object"))])), ("outputs", obj(vec![("type", s("object"))]))])]),
    )]));
    assert_eq!(tools.len(), 1);
    assert_eq!(McpTransport::<u32>::call_params("t", &vec![]), obj(vec![("name", s("t")), ("arguments", obj(vec![]))]));
}
