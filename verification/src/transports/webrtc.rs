use vstd::prelude::*;
use crate::auth::{basic_credentials, basic_header_value, AuthConfig, CredentialPlacement};
use crate::chars::{ascii_lower_seq, concat2, copy_strings, owned, str_eq, to_ascii_lower, views};
use crate::error::{ErrorKind, TransportError};
use crate::json::{
    members_view, render_json, spec_parse_json_bytes, spec_render_json, JsonValue, JsonView,
};
use crate::providers::{IceServer, WebRtcProvider};
use crate::table::KeyedTable;
use crate::tools::{
    decode_tool, default_schema_view, tool_from_json, tool_views, Tool, ToolInputOutputSchema,
    ToolView,
};
use crate::transports::common::{args_object, item_view, object2, status_error, ToolArgs};

verus! {

/// Relays tool calls over WebRTC data channels, keeping the peer
/// connection made for each provider.
pub struct WebRtcTransport<P> {
    connections: KeyedTable<P>,
}

/// How an ICE server's credential is meant.
#[derive(PartialEq, Eq, Structural, Clone, Copy, Debug)]
pub enum IceCredentialType {
    Unspecified,
    Password,
}

/// An ICE server as the peer connection is configured with it.
#[derive(Clone, Debug, PartialEq)]
pub struct IceServerConfig {
    pub urls: Vec<String>,
    pub username: String,
    pub credential: String,
    pub credential_type: IceCredentialType,
}

/// The model of an ICE server configuration.
pub ghost struct IceServerView {
    pub urls: Seq<Seq<char>>,
    pub username: Seq<char>,
    pub credential: Seq<char>,
    pub credential_type: IceCredentialType,
}

impl IceServerConfig {
    pub open spec fn view(&self) -> IceServerView {
        IceServerView {
            urls: views(self.urls@),
            username: self.username@,
            credential: self.credential@,
            credential_type: self.credential_type,
        }
    }
}

/// The configuration of a provider's ICE server: its URLs, user name and
/// credential (empty when absent), and a password credential exactly when a
/// user name is given.
pub open spec fn spec_ice_server(s: IceServer) -> IceServerView {
    IceServerView {
        urls: views(s.urls@),
        username: match s.username {
            Some(u) => u@,
            None => seq![],
        },
        credential: match s.credential {
            Some(c) => c@,
            None => seq![],
        },
        credential_type: if s.username is Some {
            IceCredentialType::Password
        } else {
            IceCredentialType::Unspecified
        },
    }
}

/// The body sent to the signaling server: `{"type": "offer", "sdp": sdp}`.
pub open spec fn spec_offer(sdp: Seq<char>) -> JsonView {
    JsonView::Object(seq![("type"@, JsonView::Str("offer"@)), ("sdp"@, JsonView::Str(sdp))])
}

/// The answer's session description: its string `sdp`, or the refusal of
/// an answer without one.
pub open spec fn spec_answer_sdp(answer: JsonView) -> Result<Seq<char>, Seq<char>> {
    match answer.get_str("sdp"@) {
        Some(s) => Ok(s),
        None => Err("Invalid answer from signaling server"@),
    }
}

/// Where the signaling request carries credentials: an API key in a header
/// or the query by its (case-insensitive) location, basic credentials in
/// `authorization`; other locations and OAuth2 are refused with the message
/// given.
pub open spec fn spec_signaling_auth(auth: AuthConfig) -> Result<(bool, Seq<char>, Seq<char>), Seq<char>> {
    match auth {
        AuthConfig::ApiKey(k) => {
            let loc = ascii_lower_seq(k.location@);
            if loc == "header"@ {
                Ok((true, k.var_name@, k.api_key@))
            } else if loc == "query"@ {
                Ok((false, k.var_name@, k.api_key@))
            } else {
                Err("Unsupported API key location: "@ + loc)
            }
        },
        AuthConfig::Basic(b) => Ok((true, "authorization"@, basic_credentials(b.username@, b.password@))),
        AuthConfig::OAuth2(_) => Err("OAuth2 auth not yet supported by WebRTC transport"@),
    }
}

/// The model of a placement: whether it is a header, its name and value.
pub open spec fn placement_view(p: CredentialPlacement) -> (bool, Seq<char>, Seq<char>) {
    match p {
        CredentialPlacement::Header(n, v) => (true, n@, v@),
        CredentialPlacement::Query(n, v) => (false, n@, v@),
    }
}

/// A request over the data channel: `{"method": m, "params": p}`.
pub open spec fn spec_channel_request(method: Seq<char>, params: JsonView) -> JsonView {
    JsonView::Object(seq![("method"@, JsonView::Str(method)), ("params"@, params)])
}

/// The parameters of a call: `{"tool": tool, "args": args}`.
pub open spec fn spec_call_params(tool: Seq<char>, args: Seq<(Seq<char>, JsonView)>) -> JsonView {
    JsonView::Object(seq![("tool"@, JsonView::Str(tool)), ("args"@, JsonView::Object(args))])
}

/// A tool read from a listing, with the default schema in place of a schema
/// whose type is empty.
pub open spec fn with_default_schemas(t: ToolView) -> ToolView {
    ToolView {
        inputs: if t.inputs.type_.len() == 0 {
            default_schema_view()
        } else {
            t.inputs
        },
        outputs: if t.outputs.type_.len() == 0 {
            default_schema_view()
        } else {
            t.outputs
        },
        ..t
    }
}

/// The tools of a listing's entries: those that read as tools, in order,
/// with default schemas filled in.
pub open spec fn listed_tools(items: Seq<JsonView>) -> Seq<ToolView>
    decreases items.len(),
{
    if items.len() == 0 {
        seq![]
    } else {
        let prefix = listed_tools(items.drop_last());
        match decode_tool(items.last()) {
            Some(t) => prefix.push(with_default_schemas(t)),
            None => prefix,
        }
    }
}

/// What a `list_tools` response lists, or the refusal of a response
/// without a `tools` array.
pub open spec fn spec_tools_response(response: JsonView) -> Result<Seq<ToolView>, Seq<char>> {
    match response.get_array("tools"@) {
        Some(items) => Ok(listed_tools(items)),
        None => Err("Invalid tools response"@),
    }
}

/// What a `call_tool` response yields: an error for an `error` member (its
/// JSON text in the message), else the `result`, else an error for the
/// missing result.
pub open spec fn spec_call_response(response: JsonView) -> Result<JsonView, Seq<char>> {
    match response.get("error"@) {
        Some(e) => Err("Tool execution error: "@ + spec_render_json(e)),
        None => match response.get("result"@) {
            Some(r) => Ok(r),
            None => Err("No result in response"@),
        },
    }
}

/// A response read from the data channel: its JSON, or the parse error.
pub open spec fn spec_channel_response(data: Seq<u8>) -> Result<JsonView, Seq<char>> {
    match spec_parse_json_bytes(data) {
        Ok(v) => Ok(v),
        Err(e) => Err("Failed to parse response: "@ + e),
    }
}

/// A message of a streamed call read from the data channel: its JSON, or
/// the parse error.
pub open spec fn spec_stream_item(data: Seq<u8>) -> Result<JsonView, Seq<char>> {
    match spec_parse_json_bytes(data) {
        Ok(v) => Ok(v),
        Err(e) => Err("Failed to parse stream item: "@ + e),
    }
}

impl<P> WebRtcTransport<P> {
    /// The cached connections are kept under distinct provider names.
    pub closed spec fn wf(&self) -> bool {
        self.connections.wf()
    }

    /// The cached peer connections, by provider name.
    pub closed spec fn cached(&self) -> Map<Seq<char>, P> {
        self.connections@
    }

    /// A transport with no cached connections.
    pub fn new() -> (r: WebRtcTransport<P>)
        ensures
            r.wf(),
            r.cached() == Map::<Seq<char>, P>::empty(),
    {
        WebRtcTransport { connections: KeyedTable::new() }
    }

    /// The schema given to tools listed without a schema type.
    pub fn default_schema() -> (r: ToolInputOutputSchema)
        ensures
            r.view() == default_schema_view(),
    {
        crate::tools::default_schema()
    }

    /// The configuration of each of the provider's ICE servers, in order
    /// (see `spec_ice_server`).
    pub fn ice_servers(&self, prov: &WebRtcProvider) -> (r: Vec<IceServerConfig>)
        ensures
            r@.len() == prov.ice_servers@.len(),
            forall|i: int| 0 <= i < r@.len() ==> #[trigger] r@[i].view() == spec_ice_server(prov.ice_servers@[i]),
    {
        let mut out: Vec<IceServerConfig> = Vec::new();
        let mut i: usize = 0;
        while i < prov.ice_servers.len()
            invariant
                0 <= i <= prov.ice_servers@.len(),
                out@.len() == i,
                forall|j: int| 0 <= j < i ==> #[trigger] out@[j].view() == spec_ice_server(prov.ice_servers@[j]),
            decreases prov.ice_servers@.len() - i,
        {
            let s = &prov.ice_servers[i];
            let urls = copy_strings(&s.urls);
            let username = match &s.username {
                Some(u) => u.clone(),
                None => String::new(),
            };
            let credential = match &s.credential {
                Some(c) => c.clone(),
                None => String::new(),
            };
            let credential_type = if s.username.is_some() {
                IceCredentialType::Password
            } else {
                IceCredentialType::Unspecified
            };
            let c = IceServerConfig { urls, username, credential, credential_type };
            assert(c.view().urls == spec_ice_server(prov.ice_servers@[i as int]).urls);
            assert(c.view().username == spec_ice_server(prov.ice_servers@[i as int]).username);
            assert(c.view().credential == spec_ice_server(prov.ice_servers@[i as int]).credential);
            assert(c.view().credential_type == spec_ice_server(prov.ice_servers@[i as int]).credential_type);
            assert(c.view() == spec_ice_server(prov.ice_servers@[i as int]));
            out.push(c);
            i = i + 1;
        }
        out
    }

    /// The offer sent to the signaling server (see `spec_offer`).
    pub fn offer_body(&self, sdp: &str) -> (r: JsonValue)
        ensures
            r@ == spec_offer(sdp@),
    {
        object2("type", JsonValue::from_str("offer"), "sdp", JsonValue::from_str(sdp))
    }

    /// Where the signaling request carries the credentials (see
    /// `spec_signaling_auth`).
    pub fn apply_auth(&self, auth: &AuthConfig) -> (r: Result<CredentialPlacement, TransportError>)
        ensures
            match r {
                Ok(p) => spec_signaling_auth(*auth) == Ok::<(bool, Seq<char>, Seq<char>), Seq<char>>(placement_view(p)),
                Err(e) => e.kind == ErrorKind::UnsupportedAuth
                    && spec_signaling_auth(*auth) == Err::<(bool, Seq<char>, Seq<char>), Seq<char>>(e.message@),
            },
    {
        match auth {
            AuthConfig::ApiKey(k) => {
                let loc = to_ascii_lower(k.location.as_str());
                if str_eq(loc.as_str(), "header") {
                    Ok(CredentialPlacement::Header(k.var_name.clone(), k.api_key.clone()))
                } else if str_eq(loc.as_str(), "query") {
                    Ok(CredentialPlacement::Query(k.var_name.clone(), k.api_key.clone()))
                } else {
                    Err(TransportError::with_message(ErrorKind::UnsupportedAuth, concat2("Unsupported API key location: ", loc.as_str())))
                }
            },
            AuthConfig::Basic(b) => Ok(
                CredentialPlacement::Header(owned("authorization"), basic_header_value(b.username.as_str(), b.password.as_str())),
            ),
            AuthConfig::OAuth2(_) => Err(
                TransportError::new(ErrorKind::UnsupportedAuth, "OAuth2 auth not yet supported by WebRTC transport"),
            ),
        }
    }

    /// The refusal of a signaling answer with a failure status.
    pub fn signaling_failed(status: &str) -> (r: TransportError)
        ensures
            r.kind == ErrorKind::RequestFailed,
            r.message@ == "Signaling server returned error: "@ + status@,
    {
        status_error("Signaling server returned error: ", status)
    }

    /// The session description of a signaling answer (see `spec_answer_sdp`).
    pub fn answer_sdp(&self, answer: &JsonValue) -> (r: Result<String, TransportError>)
        ensures
            match r {
                Ok(s) => spec_answer_sdp(answer@) == Ok::<Seq<char>, Seq<char>>(s@),
                Err(e) => e.kind == ErrorKind::InvalidResponse
                    && spec_answer_sdp(answer@) == Err::<Seq<char>, Seq<char>>(e.message@),
            },
    {
        match answer.get_str("sdp") {
            Some(s) => Ok(s.clone()),
            None => Err(TransportError::new(ErrorKind::InvalidResponse, "Invalid answer from signaling server")),
        }
    }

    /// The request for the tool listing: `{"method": "list_tools", "params": {}}`.
    pub fn list_tools_request(&self) -> (r: JsonValue)
        ensures
            r@ == spec_channel_request("list_tools"@, JsonView::Object(seq![])),
    {
        let empty: Vec<(String, JsonValue)> = Vec::new();
        let params = JsonValue::Object(empty);
        proof {
            params.lemma_object_view();
            assert(members_view(empty@) =~= Seq::<(Seq<char>, JsonView)>::empty());
        }
        object2("method", JsonValue::from_str("list_tools"), "params", params)
    }

    /// The request of a call, `call_tool` or `call_tool_stream` by
    /// `streaming`, with `{"tool": tool_name, "args": args}`.
    pub fn call_request(&self, tool_name: &str, args: &ToolArgs, streaming: bool) -> (r: JsonValue)
        ensures
            r@ == spec_channel_request(
                if streaming {
                    "call_tool_stream"@
                } else {
                    "call_tool"@
                },
                spec_call_params(tool_name@, members_view(args@)),
            ),
    {
        let params = object2("tool", JsonValue::from_str(tool_name), "args", args_object(args));
        let method = if streaming {
            "call_tool_stream"
        } else {
            "call_tool"
        };
        object2("method", JsonValue::from_str(method), "params", params)
    }

    /// A response read from the data channel (see `spec_channel_response`).
    pub fn channel_response(&self, data: &[u8]) -> (r: Result<JsonValue, TransportError>)
        ensures
            item_view(r) == spec_channel_response(data@),
    {
        match crate::json::parse_json_bytes(data) {
            Ok(v) => Ok(v),
            Err(e) => Err(TransportError::with_message(ErrorKind::Parse, concat2("Failed to parse response: ", e.as_str()))),
        }
    }

    /// The item a message of a streamed call hands on (see
    /// `spec_stream_item`); a message that is not JSON hands on its parse
    /// error and the stream goes on.
    pub fn stream_item(data: &[u8]) -> (r: Result<JsonValue, TransportError>)
        ensures
            item_view(r) == spec_stream_item(data@),
    {
        match crate::json::parse_json_bytes(data) {
            Ok(v) => Ok(v),
            Err(e) => Err(TransportError::with_message(ErrorKind::Parse, concat2("Failed to parse stream item: ", e.as_str()))),
        }
    }

    fn fill_schemas(t: Tool) -> (r: Tool)
        ensures
            r.view() == with_default_schemas(t.view()),
    {
        let mut t = t;
        if t.inputs.type_.as_str().is_empty() {
            t.inputs = crate::tools::default_schema();
        }
        if t.outputs.type_.as_str().is_empty() {
            t.outputs = crate::tools::default_schema();
        }
        t
    }

    /// The tools a `list_tools` response lists (see `spec_tools_response`).
    pub fn tools_from_response(&self, response: &JsonValue) -> (r: Result<Vec<Tool>, TransportError>)
        ensures
            match r {
                Ok(ts) => spec_tools_response(response@) == Ok::<Seq<ToolView>, Seq<char>>(tool_views(ts@)),
                Err(e) => e.kind == ErrorKind::InvalidResponse
                    && spec_tools_response(response@) == Err::<Seq<ToolView>, Seq<char>>(e.message@),
            },
    {
        let items = match response.get_array("tools") {
            Some(items) => items,
            None => return Err(TransportError::new(ErrorKind::InvalidResponse, "Invalid tools response")),
        };
        let ghost iv = crate::json::items_view(items@);
        let mut out: Vec<Tool> = Vec::new();
        let mut i: usize = 0;
        assert(tool_views(out@) =~= Seq::<ToolView>::empty());
        while i < items.len()
            invariant
                iv == crate::json::items_view(items@),
                0 <= i <= items@.len(),
                tool_views(out@) == listed_tools(iv.take(i as int)),
            decreases items@.len() - i,
        {
            assert(iv.take(i + 1).drop_last() =~= iv.take(i as int));
            match tool_from_json(&items[i]) {
                Some(t) => {
                    out.push(Self::fill_schemas(t));
                    assert(tool_views(out@) =~= tool_views(out@.drop_last()).push(out@.last().view()));
                },
                None => {},
            }
            i = i + 1;
        }
        assert(iv.take(items@.len() as int) =~= iv);
        Ok(out)
    }

    /// What a `call_tool` response yields (see `spec_call_response`).
    pub fn call_response(&self, response: &JsonValue) -> (r: Result<JsonValue, TransportError>)
        ensures
            item_view(r) == spec_call_response(response@),
            r matches Err(e) ==> e.kind == ErrorKind::RemoteError || e.kind == ErrorKind::InvalidResponse,
    {
        match response.get("error") {
            Some(e) => {
                let text = render_json(e);
                Err(TransportError::with_message(ErrorKind::RemoteError, concat2("Tool execution error: ", text.as_str())))
            },
            None => match response.get("result") {
                Some(v) => Ok(v.duplicate()),
                None => Err(TransportError::new(ErrorKind::InvalidResponse, "No result in response")),
            },
        }
    }

    /// Whether the connection made for a call is to be kept: only when no
    /// connection is cached for the provider yet.
    pub fn should_cache(&self, prov: &WebRtcProvider) -> (r: bool)
        requires
            self.wf(),
        ensures
            r == !self.cached().dom().contains(prov.base.name@),
    {
        !self.connections.contains_key(prov.base.name.as_str())
    }

    /// Keeps the connection made for a provider.
    pub fn cache_connection(&mut self, prov: &WebRtcProvider, connection: P)
        requires
            old(self).wf(),
        ensures
            final(self).wf(),
            final(self).cached() == old(self).cached().insert(prov.base.name@, connection),
    {
        self.connections.insert(prov.base.name.as_str(), connection);
    }

    /// Forgets the connection of a provider that is deregistered, handing it
    /// back to be closed.
    pub fn forget_connection(&mut self, prov: &WebRtcProvider) -> (r: Option<P>)
        requires
            old(self).wf(),
        ensures
            final(self).wf(),
            final(self).cached() == old(self).cached().remove(prov.base.name@),
            match r {
                Some(p) => old(self).cached().dom().contains(prov.base.name@) && old(self).cached()[prov.base.name@] == p,
                None => !old(self).cached().dom().contains(prov.base.name@),
            },
    {
        self.connections.remove(prov.base.name.as_str())
    }
}

} // verus!
