use vstd::prelude::*;
use crate::auth::{
    auth_headers_of, auth_query_of, http_auth_err, http_auth_ok, http_auth_placeable,
    http_auth_placement, http_auth_refusal, place_http_auth, AuthConfig, CredentialPlacement,
};
use crate::chars::pair_views;
use crate::chars::{trim, trim_str};
use crate::error::{ErrorKind, TransportError};
use crate::json::{
    members_view, render_json, spec_parse_json, spec_render_json, JsonNumber, JsonValue, JsonView,
    NumberView,
};
use crate::providers::McpProvider;
use crate::table::KeyedTable;
use crate::tools::{manifest_tools, tool_views, tools_from_manifest, Tool, ToolView};
use crate::transports::common::{
    append_opt_headers, args_object, error_with, item_view, object1, object2, object4,
    opt_headers_view, push_header, status_error, StreamStep, ToolArgs,
};

verus! {

/// Speaks the Model Context Protocol (JSON-RPC 2.0) with a provider over
/// HTTP, or with a child process over its standard streams.
pub struct McpTransport<P> {
    stdio_processes: KeyedTable<P>,
}

/// How a provider is reached.
#[derive(PartialEq, Eq, Structural, Clone, Copy, Debug)]
pub enum McpRoute {
    Http,
    Stdio,
}

/// The route for a provider: HTTP when it has a URL, else a child process
/// when it has a command.
pub open spec fn spec_route(prov: McpProvider) -> Option<McpRoute> {
    if prov.url is Some {
        Some(McpRoute::Http)
    } else if prov.command is Some {
        Some(McpRoute::Stdio)
    } else {
        None
    }
}

/// The JSON-RPC request `{"jsonrpc": "2.0", "method": m, "params": p, "id": id}`.
pub open spec fn spec_rpc_request(method: Seq<char>, params: JsonView, id: u64) -> JsonView {
    JsonView::Object(
        seq![
            ("jsonrpc"@, JsonView::Str("2.0"@)),
            ("method"@, JsonView::Str(method)),
            ("params"@, params),
            ("id"@, JsonView::Number(NumberView::PosInt(id))),
        ],
    )
}

/// What a JSON-RPC response yields: an error when it has `error`, else its
/// `result`, else an error for the missing result.
pub open spec fn spec_rpc_result(response: JsonView) -> Result<JsonView, Seq<char>> {
    match response.get("error"@) {
        Some(e) => Err("MCP error: "@ + spec_render_json(e)),
        None => match response.get("result"@) {
            Some(r) => Ok(r),
            None => Err("No result in MCP response"@),
        },
    }
}

/// What a response line from a child process yields: an error for an empty
/// line (the process closed its output) or unreadable JSON, else the
/// response's result.
pub open spec fn spec_stdio_response(line: Seq<char>) -> Result<JsonView, Seq<char>> {
    if line.len() == 0 {
        Err("MCP process closed connection"@)
    } else {
        match spec_parse_json(line) {
            Err(e) => Err(e),
            Ok(resp) => spec_rpc_result(resp),
        }
    }
}

/// What a line of a streamed call over a child process hands on: nothing
/// for a blank line; an error for unreadable JSON or an `error` member,
/// which ends the stream; the `result` otherwise, ending the stream when the
/// response is marked `final`.
pub open spec fn spec_stdio_stream_step(line: Seq<char>) -> (Seq<Result<JsonView, Seq<char>>>, bool) {
    if trim(line).len() == 0 {
        (seq![], false)
    } else {
        match spec_parse_json(line) {
            Err(e) => (seq![Err("Failed to parse response: "@ + e)], true),
            Ok(resp) => match resp.get("error"@) {
                Some(err) => (seq![Err("MCP error: "@ + spec_render_json(err))], true),
                None => match resp.get("result"@) {
                    Some(r) => (seq![Ok(r)], resp.get("final"@) == Some(JsonView::Bool(true))),
                    None => (seq![], false),
                },
            },
        }
    }
}

/// What an event of a streamed call over HTTP hands on: its data as JSON,
/// or an error that ends the stream.
pub open spec fn spec_event_step(data: Seq<char>) -> (Seq<Result<JsonView, Seq<char>>>, bool) {
    match spec_parse_json(data) {
        Ok(v) => (seq![Ok(v)], false),
        Err(e) => (seq![Err("Failed to parse SSE event: "@ + e)], true),
    }
}

/// The parameters of a tool call: `{"name": tool, "arguments": args}`.
pub open spec fn spec_call_params(tool: Seq<char>, args: Seq<(Seq<char>, JsonView)>) -> JsonView {
    JsonView::Object(seq![("name"@, JsonView::Str(tool)), ("arguments"@, JsonView::Object(args))])
}

/// A `tools/call` request carries the tool's name and the caller's
/// arguments unchanged.
pub proof fn law_call_params_carry_arguments(tool: Seq<char>, args: Seq<(Seq<char>, JsonView)>)
    ensures
        spec_call_params(tool, args).get("arguments"@) == Some(JsonView::Object(args)),
        spec_call_params(tool, args).get_str("name"@) == Some(tool),
{
    reveal_strlit("arguments");
    reveal_strlit("name");
    let m = seq![("name"@, JsonView::Str(tool)), ("arguments"@, JsonView::Object(args))];
    assert(m.drop_last() =~= seq![("name"@, JsonView::Str(tool))]);
    assert("arguments"@.len() != "name"@.len());
    assert(crate::json::lookup(m.drop_last(), "name"@) == Some(JsonView::Str(tool)));
}

/// The tools a `tools/list` result lists, none when it has no `tools` array.
pub open spec fn listed_tools(result: JsonView) -> Seq<ToolView> {
    match manifest_tools(result) {
        Some(ts) => ts,
        None => seq![],
    }
}

/// The ids given to the requests sent to one child process: 1, then 2,
/// and so on, one per request.
pub struct RequestIds {
    next: u64,
}

impl RequestIds {
    /// The id the next request gets.
    pub closed spec fn view(&self) -> u64 {
        self.next
    }

    /// The ids of a process that has sent nothing yet: the first is 1.
    pub fn new() -> (r: RequestIds)
        ensures
            r.view() == 1,
    {
        RequestIds { next: 1 }
    }

    /// The id the next request gets.
    pub fn peek(&self) -> (r: u64)
        ensures
            r == self.view(),
    {
        self.next
    }

    /// Takes the id for a request; the next request gets the one after.
    pub fn take(&mut self) -> (r: u64)
        requires
            old(self).view() < u64::MAX,
        ensures
            r == old(self).view(),
            final(self).view() == old(self).view() + 1,
    {
        let id = self.next;
        self.next = self.next + 1;
        id
    }
}

/// An HTTP request to a provider: the URL, the headers in the order they
/// are added, and the credentials' query pairs.
#[derive(Clone, Debug, PartialEq)]
pub struct McpHttpPlan {
    pub url: String,
    pub headers: Vec<(String, String)>,
    pub query: Vec<(String, String)>,
}

/// The HTTP request to a provider: its URL (refused when it has none), its
/// headers, the credentials placed by the shared HTTP rule, and for a
/// streamed call `Accept: text/event-stream` last.
pub open spec fn spec_http_plan(prov: McpProvider, streaming: bool) -> Result<(Seq<char>, Seq<(Seq<char>, Seq<char>)>, Seq<(Seq<char>, Seq<char>)>), (ErrorKind, Seq<char>)> {
    match prov.url {
        None => Err((ErrorKind::MissingConfiguration, "No URL provided for HTTP MCP provider"@)),
        Some(u) => {
            let (ah, aq, refused) = match prov.base.auth {
                None => (seq![], seq![], None),
                Some(a) => if http_auth_placeable(a) {
                    (auth_headers_of(a), auth_query_of(a), None)
                } else {
                    (seq![], seq![], Some(http_auth_refusal(a, "MCP"@)))
                },
            };
            match refused {
                Some(m) => Err((ErrorKind::UnsupportedAuth, m)),
                None => Ok(
                    (
                        u@,
                        opt_headers_view(prov.headers) + ah + if streaming {
                            seq![("Accept"@, "text/event-stream"@)]
                        } else {
                            seq![]
                        },
                        aq,
                    ),
                ),
            }
        },
    }
}

impl<P> McpTransport<P> {
    /// The child processes are kept under distinct provider names.
    pub closed spec fn wf(&self) -> bool {
        self.stdio_processes.wf()
    }

    /// The running child processes, by provider name.
    pub closed spec fn processes(&self) -> Map<Seq<char>, P> {
        self.stdio_processes@
    }

    /// A transport with no child processes.
    pub fn new() -> (r: McpTransport<P>)
        ensures
            r.wf(),
            r.processes() == Map::<Seq<char>, P>::empty(),
    {
        McpTransport { stdio_processes: KeyedTable::new() }
    }

    /// How `prov` is reached, or the refusal of a provider with neither a
    /// URL nor a command.
    pub fn route(prov: &McpProvider) -> (r: Result<McpRoute, TransportError>)
        ensures
            match r {
                Ok(route) => spec_route(*prov) == Some(route),
                Err(e) => spec_route(*prov) is None && e.kind == ErrorKind::MissingConfiguration
                    && e.message@ == "MCP provider must have either 'url' (HTTP) or 'command' (stdio)"@,
            },
    {
        if prov.is_http() {
            Ok(McpRoute::Http)
        } else if prov.is_stdio() {
            Ok(McpRoute::Stdio)
        } else {
            Err(TransportError::new(ErrorKind::MissingConfiguration, "MCP provider must have either 'url' (HTTP) or 'command' (stdio)"))
        }
    }

    /// The URL of an HTTP provider, or the refusal when it has none.
    pub fn http_url(prov: &McpProvider) -> (r: Result<String, TransportError>)
        ensures
            match r {
                Ok(u) => prov.url == Some(u),
                Err(e) => prov.url is None && e.kind == ErrorKind::MissingConfiguration
                    && e.message@ == "No URL provided for HTTP MCP provider"@,
            },
    {
        match &prov.url {
            Some(u) => Ok(u.clone()),
            None => Err(TransportError::new(ErrorKind::MissingConfiguration, "No URL provided for HTTP MCP provider")),
        }
    }

    /// The command of a child-process provider, or the refusal when it has none.
    pub fn stdio_command(prov: &McpProvider) -> (r: Result<String, TransportError>)
        ensures
            match r {
                Ok(c) => prov.command == Some(c),
                Err(e) => prov.command is None && e.kind == ErrorKind::MissingConfiguration
                    && e.message@ == "No command provided for stdio MCP provider"@,
            },
    {
        match &prov.command {
            Some(c) => Ok(c.clone()),
            None => Err(TransportError::new(ErrorKind::MissingConfiguration, "No command provided for stdio MCP provider")),
        }
    }

    /// The JSON-RPC request for `method` with `params` and number `id`.
    pub fn rpc_request(method: &str, params: JsonValue, id: u64) -> (r: JsonValue)
        ensures
            r@ == spec_rpc_request(method@, params@, id),
    {
        object4(
            "jsonrpc",
            JsonValue::from_str("2.0"),
            "method",
            JsonValue::from_str(method),
            "params",
            params,
            "id",
            JsonValue::Number(JsonNumber::PosInt(id)),
        )
    }

    /// The parameters of `tools/list`: `{"cursor": null}`.
    pub fn list_params() -> (r: JsonValue)
        ensures
            r@ == JsonView::Object(seq![("cursor"@, JsonView::Null)]),
    {
        object1("cursor", JsonValue::Null)
    }

    /// The parameters of calling `tool_name` with `args`.
    pub fn call_params(tool_name: &str, args: &ToolArgs) -> (r: JsonValue)
        ensures
            r@ == spec_call_params(tool_name@, members_view(args@)),
    {
        object2("name", JsonValue::from_str(tool_name), "arguments", args_object(args))
    }

    /// The HTTP request to a provider (see `spec_http_plan`).
    pub fn http_plan(prov: &McpProvider, streaming: bool) -> (r: Result<McpHttpPlan, TransportError>)
        ensures
            match r {
                Ok(p) => spec_http_plan(*prov, streaming) == Ok::<
                    (Seq<char>, Seq<(Seq<char>, Seq<char>)>, Seq<(Seq<char>, Seq<char>)>),
                    (ErrorKind, Seq<char>),
                >((p.url@, pair_views(p.headers@), pair_views(p.query@))),
                Err(e) => spec_http_plan(*prov, streaming) == Err::<
                    (Seq<char>, Seq<(Seq<char>, Seq<char>)>, Seq<(Seq<char>, Seq<char>)>),
                    (ErrorKind, Seq<char>),
                >((e.kind, e.message@)),
            },
    {
        let url = match Self::http_url(prov) {
            Ok(u) => u,
            Err(e) => return Err(e),
        };
        let mut headers: Vec<(String, String)> = Vec::new();
        let mut query: Vec<(String, String)> = Vec::new();
        assert(pair_views(headers@) =~= Seq::<(Seq<char>, Seq<char>)>::empty());
        assert(pair_views(query@) =~= Seq::<(Seq<char>, Seq<char>)>::empty());
        append_opt_headers(&mut headers, &prov.headers);
        match &prov.base.auth {
            Some(a) => match place_http_auth(a, "MCP", &mut headers, &mut query) {
                Ok(()) => {},
                Err(e) => return Err(e),
            },
            None => {
                assert(pair_views(headers@) =~= opt_headers_view(prov.headers) + Seq::<(Seq<char>, Seq<char>)>::empty());
            },
        }
        let ghost before = pair_views(headers@);
        if streaming {
            push_header(&mut headers, "Accept", "text/event-stream");
            assert(pair_views(headers@) =~= before + seq![("Accept"@, "text/event-stream"@)]);
        } else {
            assert(before + Seq::<(Seq<char>, Seq<char>)>::empty() =~= before);
        }
        Ok(McpHttpPlan { url, headers, query })
    }

    /// Where this transport's HTTP requests carry the credentials.
    pub fn apply_auth(&self, auth: &AuthConfig) -> (r: Result<CredentialPlacement, TransportError>)
        ensures
            r is Ok <==> http_auth_placeable(*auth),
            match r {
                Ok(p) => http_auth_ok(*auth, p),
                Err(e) => http_auth_err(*auth, "MCP"@, e),
            },
    {
        http_auth_placement(auth, "MCP")
    }

    /// The refusal of a request answered with a failure status.
    pub fn request_failed(status: &str) -> (r: TransportError)
        ensures
            r.kind == ErrorKind::RequestFailed,
            r.message@ == "MCP request failed: "@ + status@,
    {
        status_error("MCP request failed: ", status)
    }

    /// The refusal of a streamed request answered with a failure status.
    pub fn stream_request_failed(status: &str) -> (r: TransportError)
        ensures
            r.kind == ErrorKind::RequestFailed,
            r.message@ == "MCP stream request failed: "@ + status@,
    {
        status_error("MCP stream request failed: ", status)
    }

    /// What a JSON-RPC response yields (see `spec_rpc_result`).
    pub fn rpc_result(response: &JsonValue) -> (r: Result<JsonValue, TransportError>)
        ensures
            item_view(r) == spec_rpc_result(response@),
    {
        match response.get("error") {
            Some(e) => {
                let t = render_json(e);
                Err(error_with(ErrorKind::RemoteError, "MCP error: ", t.as_str()))
            },
            None => match response.get("result") {
                Some(r) => Ok(r.duplicate()),
                None => Err(TransportError::new(ErrorKind::InvalidResponse, "No result in MCP response")),
            },
        }
    }

    /// What a response line from a child process yields (see `spec_stdio_response`).
    pub fn stdio_response(line: &str) -> (r: Result<JsonValue, TransportError>)
        ensures
            item_view(r) == spec_stdio_response(line@),
    {
        if line.is_empty() {
            return Err(TransportError::new(ErrorKind::InvalidResponse, "MCP process closed connection"));
        }
        match crate::json::parse_json(line) {
            Err(e) => Err(TransportError::with_message(ErrorKind::Parse, e)),
            Ok(resp) => Self::rpc_result(&resp),
        }
    }

    /// What a line of a streamed call over a child process hands on (see
    /// `spec_stdio_stream_step`).
    pub fn stdio_stream_step(line: &str) -> (r: StreamStep)
        ensures
            r.view() == spec_stdio_stream_step(line@),
    {
        let t = trim_str(line);
        if t.as_str().is_empty() {
            return StreamStep::empty(false);
        }
        match crate::json::parse_json(line) {
            Err(e) => StreamStep::one(Err(error_with(ErrorKind::Parse, "Failed to parse response: ", e.as_str())), true),
            Ok(resp) => match resp.get("error") {
                Some(err) => {
                    let text = render_json(err);
                    StreamStep::one(Err(error_with(ErrorKind::RemoteError, "MCP error: ", text.as_str())), true)
                },
                None => match resp.get("result") {
                    Some(r) => {
                        let fin = match resp.get("final") {
                            Some(JsonValue::Bool(b)) => *b,
                            _ => false,
                        };
                        StreamStep::one(Ok(r.duplicate()), fin)
                    },
                    None => StreamStep::empty(false),
                },
            },
        }
    }

    /// What an event of a streamed call over HTTP hands on (see `spec_event_step`).
    pub fn event_step(data: &str) -> (r: StreamStep)
        ensures
            r.view() == spec_event_step(data@),
    {
        match crate::json::parse_json(data) {
            Ok(v) => StreamStep::one(Ok(v), false),
            Err(e) => StreamStep::one(Err(error_with(ErrorKind::Parse, "Failed to parse SSE event: ", e.as_str())), true),
        }
    }

    /// The tools a `tools/list` result lists (see `listed_tools`).
    pub fn tools_from_list(result: &JsonValue) -> (r: Vec<Tool>)
        ensures
            tool_views(r@) == listed_tools(result@),
    {
        match tools_from_manifest(result) {
            Some(ts) => ts,
            None => {
                let e: Vec<Tool> = Vec::new();
                assert(tool_views(e@) =~= Seq::<ToolView>::empty());
                e
            },
        }
    }

    /// The child process already serving the provider named `name`.
    pub fn process_for(&self, name: &str) -> (r: Option<&P>)
        requires
            self.wf(),
        ensures
            match r {
                Some(p) => self.processes().dom().contains(name@) && self.processes()[name@] == *p,
                None => !self.processes().dom().contains(name@),
            },
    {
        self.stdio_processes.get(name)
    }

    /// Keeps a newly started child process for the provider named `name`.
    pub fn keep_process(&mut self, name: &str, process: P)
        requires
            old(self).wf(),
        ensures
            final(self).wf(),
            final(self).processes() == old(self).processes().insert(name@, process),
    {
        self.stdio_processes.insert(name, process);
    }

    /// Forgets the child process of a provider that is deregistered: only
    /// child-process providers have one.
    pub fn forget_process(&mut self, prov: &McpProvider) -> (r: Option<P>)
        requires
            old(self).wf(),
        ensures
            final(self).wf(),
            prov.command is Some ==> final(self).processes() == old(self).processes().remove(prov.base.name@),
            prov.command is None ==> final(self).processes() == old(self).processes() && r is None,
            r matches Some(p) ==> old(self).processes().dom().contains(prov.base.name@)
                && old(self).processes()[prov.base.name@] == p,
    {
        if prov.is_stdio() {
            self.stdio_processes.remove(prov.base.name.as_str())
        } else {
            None
        }
    }
}

} // verus!
