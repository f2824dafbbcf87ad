use vstd::prelude::*;
use crate::auth::{basic_credentials, basic_header_value, cookie_pair, AuthConfig};
use crate::chars::{
    ascii_lower_seq, chars_of, concat3, owned, str_eq, string_from_chars, to_ascii_lower,
    trim_end_char, trim_end_matches_char, trim_end_matches_str, trim_end_str, utf8_text,
};
use crate::error::{is_error, ErrorKind, TransportError};
use crate::json::{
    members_view, render_json, spec_parse_json, spec_render_json, JsonValue, JsonView,
};
use crate::providers::WebSocketProvider;
use crate::tools::{
    decode_tool, default_schema_view, opt_json_view, plain_tool, plain_tool_view, tool_from_json,
    tool_views, Tool, ToolInputOutputSchema, ToolView,
};
use crate::transports::common::{
    append_opt_headers, args_object, call_name, headers_view, item_view, items_view, json_or_text,
    opt_headers_view, parse_or_string, push_header, spec_call_name, StreamStep, ToolArgs,
};

verus! {

/// Calls tools over WebSocket connections.
pub struct WebSocketTransport;

/// A message received on a connection, as far as the transport reads it.
#[derive(Clone, Debug, PartialEq)]
pub enum WsFrame {
    Text(String),
    Binary(Vec<u8>),
    /// A ping, a pong or any other frame that carries no result.
    Control,
    Close,
    /// Receiving failed, with this message.
    Failed(String),
}

/// What opening a connection takes: the URL, and the headers to set on the
/// handshake in the order they are set (a later one replaces an earlier one
/// of the same name).
#[derive(Clone, Debug, PartialEq)]
pub struct WsRequest {
    pub url: String,
    pub headers: Vec<(String, String)>,
}

/// What `reqwest::Url` gives for `url` with the pair `name=value` appended
/// to its query: the serialized URL, or the message of the parse error.
pub uninterp spec fn spec_url_with_query_pair(url: Seq<char>, name: Seq<char>, value: Seq<char>) -> Result<Seq<char>, Seq<char>>;

/// Wraps `reqwest::Url::parse`, `query_pairs_mut().append_pair` and the
/// URL's `to_string`: the URL with one form-encoded query pair appended, or
/// the parse error's message.  The result is named by
/// `spec_url_with_query_pair`; nothing more of it is stated.
#[verifier::external_body]
fn url_with_query_pair(url: &str, name: &str, value: &str) -> (r: Result<String, String>)
    ensures
        match r {
            Ok(s) => spec_url_with_query_pair(url@, name@, value@) == Ok::<Seq<char>, Seq<char>>(s@),
            Err(e) => spec_url_with_query_pair(url@, name@, value@) == Err::<Seq<char>, Seq<char>>(e@),
        },
{
    match reqwest::Url::parse(url) {
        Ok(mut parsed) => {
            parsed.query_pairs_mut().append_pair(name, value);
            Ok(parsed.to_string())
        },
        Err(e) => Err(e.to_string()),
    }
}

/// The URL a connection opens: for an API key whose location is `query`
/// (in any case), the URL with the key appended as a query pair; for any
/// other credentials the URL as given.
pub open spec fn spec_auth_url(url: Seq<char>, auth: AuthConfig) -> Result<Seq<char>, Seq<char>> {
    match auth {
        AuthConfig::ApiKey(k) => if ascii_lower_seq(k.location@) == "query"@ {
            spec_url_with_query_pair(url, k.var_name@, k.api_key@)
        } else {
            Ok(url)
        },
        _ => Ok(url),
    }
}

/// The headers credentials add to the handshake: an API key under its own
/// name (location `header`) or as a `cookie` (location `cookie`), and
/// nothing for other locations; basic credentials in `authorization`.
/// OAuth2 credentials cannot be sent (`None`).
pub open spec fn spec_auth_headers(auth: AuthConfig) -> Option<Seq<(Seq<char>, Seq<char>)>> {
    match auth {
        AuthConfig::ApiKey(k) => {
            let loc = ascii_lower_seq(k.location@);
            if loc == "header"@ {
                Some(seq![(k.var_name@, k.api_key@)])
            } else if loc == "cookie"@ {
                Some(seq![("cookie"@, k.var_name@ + "="@ + k.api_key@)])
            } else {
                Some(seq![])
            }
        },
        AuthConfig::Basic(b) => Some(
            seq![("authorization"@, basic_credentials(b.username@, b.password@))],
        ),
        AuthConfig::OAuth2(_) => None,
    }
}

/// The refusal of OAuth2 credentials.
pub open spec fn oauth2_refusal() -> Seq<char> {
    "OAuth2 auth is not yet supported by the WebSocket transport"@
}

/// The header naming the subprotocol, when the provider asks for one.
pub open spec fn protocol_headers(protocol: Option<String>) -> Seq<(Seq<char>, Seq<char>)> {
    match protocol {
        Some(p) => seq![("Sec-WebSocket-Protocol"@, p@)],
        None => seq![],
    }
}

/// The handshake for `url` with the provider's settings: the URL with any
/// query credentials, then the provider's headers, its subprotocol as
/// `Sec-WebSocket-Protocol`, and the credentials' headers; or the error
/// (its kind and message) that stops it.
pub open spec fn spec_build_request(prov: WebSocketProvider, url: Seq<char>) -> Result<(Seq<char>, Seq<(Seq<char>, Seq<char>)>), (ErrorKind, Seq<char>)> {
    let url_r = match prov.base.auth {
        Some(a) => spec_auth_url(url, a),
        None => Ok(url),
    };
    match url_r {
        Err(e) => Err((ErrorKind::InvalidUrl, e)),
        Ok(u) => {
            let base = opt_headers_view(prov.headers) + protocol_headers(prov.protocol);
            match prov.base.auth {
                None => Ok((u, base)),
                Some(a) => match spec_auth_headers(a) {
                    Some(h) => Ok((u, base + h)),
                    None => Err((ErrorKind::UnsupportedAuth, oauth2_refusal())),
                },
            }
        },
    }
}

/// The URL a tool is called at: the provider's URL without trailing slashes
/// and then without trailing `/tools`, a slash, and the tool's name.
pub open spec fn spec_ws_call_url(base: Seq<char>, name: Seq<char>) -> Seq<char> {
    trim_end_str(trim_end_char(base, '/'), "/tools"@) + "/"@ + name
}

/// A provider URL ending in `/tools` calls each tool beside that path: the
/// same URL as the provider URL without the ending (one that does not end in
/// a slash itself).
pub proof fn law_ws_call_url_beside_tools(base: Seq<char>, name: Seq<char>)
    requires
        base.len() == 0 || base.last() != '/',
    ensures
        spec_ws_call_url(base + "/tools"@, name) == spec_ws_call_url(base, name),
{
    reveal_strlit("/tools");
    let b = base + "/tools"@;
    assert(trim_end_char(b, '/') == b);
    assert(trim_end_char(base, '/') == base);
    assert(b.skip(b.len() - 6) =~= "/tools"@);
    assert(b.take(b.len() - 6) =~= base);
}

/// What one entry of a manual's `tools` array gives: the tool it reads as;
/// failing that, where it has a string `name`, a tool of that name with its
/// string `description` (empty otherwise), no tags and default schemas;
/// otherwise nothing.
pub open spec fn manual_entry(v: JsonView) -> Option<ToolView> {
    match decode_tool(v) {
        Some(t) => Some(t),
        None => match v.get_str("name"@) {
            Some(n) => Some(
                plain_tool_view(
                    n,
                    match v.get_str("description"@) {
                        Some(d) => d,
                        None => seq![],
                    },
                    seq![],
                ),
            ),
            None => None,
        },
    }
}

/// The tools the entries of a manual give, in order.
pub open spec fn manual_entries(items: Seq<JsonView>) -> Seq<ToolView>
    decreases items.len(),
{
    if items.len() == 0 {
        seq![]
    } else {
        let prefix = manual_entries(items.drop_last());
        match manual_entry(items.last()) {
            Some(t) => prefix.push(t),
            None => prefix,
        }
    }
}

/// The tools a reply to the manual request lists: for a text frame holding
/// a JSON document with a `tools` array, what its entries give; otherwise
/// none.
pub open spec fn manual_reply_tools(reply: WsFrame) -> Seq<ToolView> {
    match reply {
        WsFrame::Text(t) => match spec_parse_json(t@) {
            Ok(doc) => match doc.get_array("tools"@) {
                Some(items) => manual_entries(items),
                None => seq![],
            },
            Err(_) => seq![],
        },
        _ => seq![],
    }
}

/// What a frame adds to the results of a call, and whether the results end
/// with it: a text frame its JSON, or itself as a string where it is not
/// JSON; a binary frame the same for the text it encodes, and nothing where
/// it is not UTF-8; a close or a failure ends the results; other frames add
/// nothing.
pub open spec fn spec_reply_value(f: WsFrame) -> (Option<JsonView>, bool) {
    match f {
        WsFrame::Text(t) => (Some(json_or_text(t@)), false),
        WsFrame::Binary(b) => (
            if vstd::utf8::valid_utf8(b@) {
                Some(json_or_text(vstd::utf8::decode_utf8(b@)))
            } else {
                None
            },
            false,
        ),
        WsFrame::Control => (None, false),
        WsFrame::Close => (None, true),
        WsFrame::Failed(_) => (None, true),
    }
}

/// The stream item for a message text: its JSON, or the parse error.
pub open spec fn message_item(text: Seq<char>) -> Result<JsonView, Seq<char>> {
    match spec_parse_json(text) {
        Ok(v) => Ok(v),
        Err(e) => Err("Failed to parse WebSocket message: "@ + e),
    }
}

/// What a stream hands on for a frame, and whether it ends: a text frame
/// its item; a binary frame the item of the text it encodes, and nothing
/// where it is not UTF-8; a close ends the stream; a failure hands on
/// `WebSocket receive error: <message>` and ends it; other frames nothing.
pub open spec fn spec_stream_step(f: WsFrame) -> (Seq<Result<JsonView, Seq<char>>>, bool) {
    match f {
        WsFrame::Text(t) => (seq![message_item(t@)], false),
        WsFrame::Binary(b) => (
            if vstd::utf8::valid_utf8(b@) {
                seq![message_item(vstd::utf8::decode_utf8(b@))]
            } else {
                seq![]
            },
            false,
        ),
        WsFrame::Control => (seq![], false),
        WsFrame::Close => (seq![], true),
        WsFrame::Failed(m) => (seq![Err("WebSocket receive error: "@ + m@)], true),
    }
}

impl WebSocketTransport {
    /// A WebSocket transport.
    pub fn new() -> (r: WebSocketTransport) {
        WebSocketTransport
    }

    /// The schema given to tools that a manual names without one.
    pub fn default_schema() -> (r: ToolInputOutputSchema)
        ensures
            r.view() == default_schema_view(),
    {
        crate::tools::default_schema()
    }

    /// The URL with query credentials applied (see `spec_auth_url`).
    pub fn apply_auth_to_url(&self, url: &str, auth: &AuthConfig) -> (r: Result<String, TransportError>)
        ensures
            match r {
                Ok(s) => spec_auth_url(url@, *auth) == Ok::<Seq<char>, Seq<char>>(s@),
                Err(e) => e.kind == ErrorKind::InvalidUrl && spec_auth_url(url@, *auth) == Err::<
                    Seq<char>,
                    Seq<char>,
                >(e.message@),
            },
    {
        match auth {
            AuthConfig::ApiKey(k) => {
                let loc = to_ascii_lower(k.location.as_str());
                if str_eq(loc.as_str(), "query") {
                    match url_with_query_pair(url, k.var_name.as_str(), k.api_key.as_str()) {
                        Ok(s) => Ok(s),
                        Err(e) => Err(TransportError::with_message(ErrorKind::InvalidUrl, e)),
                    }
                } else {
                    Ok(owned(url))
                }
            },
            _ => Ok(owned(url)),
        }
    }

    /// Appends the credentials' headers (see `spec_auth_headers`); OAuth2
    /// credentials are refused and nothing is appended.
    pub fn apply_auth_headers(&self, headers: &mut Vec<(String, String)>, auth: &AuthConfig) -> (r: Result<(), TransportError>)
        ensures
            match spec_auth_headers(*auth) {
                Some(h) => r is Ok && headers_view(final(headers)@) == headers_view(old(headers)@) + h,
                None => is_error(r, ErrorKind::UnsupportedAuth, oauth2_refusal())
                    && final(headers)@ == old(headers)@,
            },
    {
        match auth {
            AuthConfig::ApiKey(k) => {
                let loc = to_ascii_lower(k.location.as_str());
                if str_eq(loc.as_str(), "header") {
                    push_header(headers, k.var_name.as_str(), k.api_key.as_str());
                } else if str_eq(loc.as_str(), "cookie") {
                    let v = cookie_pair(k.var_name.as_str(), k.api_key.as_str());
                    push_header(headers, "cookie", v.as_str());
                } else {
                    assert(headers_view(headers@) + Seq::<(Seq<char>, Seq<char>)>::empty()
                        =~= headers_view(headers@));
                }
                Ok(())
            },
            AuthConfig::Basic(b) => {
                let v = basic_header_value(b.username.as_str(), b.password.as_str());
                push_header(headers, "authorization", v.as_str());
                Ok(())
            },
            AuthConfig::OAuth2(_) => Err(
                TransportError::new(
                    ErrorKind::UnsupportedAuth,
                    "OAuth2 auth is not yet supported by the WebSocket transport",
                ),
            ),
        }
    }

    /// The handshake for `url` with the provider's settings (see
    /// `spec_build_request`).
    pub fn build_request(&self, prov: &WebSocketProvider, url: &str) -> (r: Result<WsRequest, TransportError>)
        ensures
            match r {
                Ok(q) => spec_build_request(*prov, url@) == Ok::<
                    (Seq<char>, Seq<(Seq<char>, Seq<char>)>),
                    (ErrorKind, Seq<char>),
                >((q.url@, headers_view(q.headers@))),
                Err(e) => spec_build_request(*prov, url@) == Err::<
                    (Seq<char>, Seq<(Seq<char>, Seq<char>)>),
                    (ErrorKind, Seq<char>),
                >((e.kind, e.message@)),
            },
    {
        let target = match &prov.base.auth {
            Some(a) => match self.apply_auth_to_url(url, a) {
                Ok(u) => u,
                Err(e) => return Err(e),
            },
            None => owned(url),
        };
        let mut headers: Vec<(String, String)> = Vec::new();
        assert(headers_view(headers@) =~= Seq::<(Seq<char>, Seq<char>)>::empty());
        append_opt_headers(&mut headers, &prov.headers);
        assert(headers_view(headers@) =~= opt_headers_view(prov.headers));
        let ghost base = opt_headers_view(prov.headers) + protocol_headers(prov.protocol);
        match &prov.protocol {
            Some(p) => {
                push_header(&mut headers, "Sec-WebSocket-Protocol", p.as_str());
                assert(headers_view(headers@) =~= base);
            },
            None => {
                assert(headers_view(headers@) =~= base);
            },
        }
        match &prov.base.auth {
            Some(a) => match self.apply_auth_headers(&mut headers, a) {
                Ok(()) => {},
                Err(e) => return Err(e),
            },
            None => {},
        }
        Ok(WsRequest { url: target, headers })
    }

    /// The message that asks a provider for its manual.
    pub fn manual_request(&self) -> (r: String)
        ensures
            r@ == "manual"@,
    {
        owned("manual")
    }

    /// The URL `tool_name` is called at (see `spec_ws_call_url`).
    pub fn call_url(&self, prov: &WebSocketProvider, tool_name: &str) -> (r: String)
        ensures
            r@ == spec_ws_call_url(prov.url@, spec_call_name(tool_name@, prov.base.name@)),
    {
        let name = call_name(tool_name, prov.base.name.as_str());
        let trimmed = trim_end_matches_char(&chars_of(prov.url.as_str()), '/');
        let base = string_from_chars(trimmed.as_slice());
        proof {
            reveal_strlit("/tools");
        }
        let base = trim_end_matches_str(base.as_str(), "/tools");
        concat3(base.as_str(), "/", name.as_str())
    }

    /// The message sent for a call: the arguments as a JSON object.
    pub fn call_payload(&self, args: &ToolArgs) -> (r: String)
        ensures
            r@ == spec_render_json(JsonView::Object(members_view(args@))),
    {
        render_json(&args_object(args))
    }

    fn manual_entry_tool(v: &JsonValue) -> (r: Option<Tool>)
        ensures
            match r {
                Some(t) => manual_entry(v@) == Some(t.view()),
                None => manual_entry(v@) is None,
            },
    {
        match tool_from_json(v) {
            Some(t) => Some(t),
            None => match v.get_str("name") {
                Some(n) => {
                    let d = match v.get_str("description") {
                        Some(d) => d.clone(),
                        None => String::new(),
                    };
                    let tags: Vec<String> = Vec::new();
                    let t = plain_tool(n.as_str(), d.as_str(), &tags);
                    assert(crate::chars::views(tags@) =~= Seq::<Seq<char>>::empty());
                    Some(t)
                },
                None => None,
            },
        }
    }

    /// The tools a reply to the manual request lists (see `manual_reply_tools`).
    pub fn tools_from_manual_reply(&self, reply: &WsFrame) -> (r: Vec<Tool>)
        ensures
            tool_views(r@) == manual_reply_tools(*reply),
    {
        let mut out: Vec<Tool> = Vec::new();
        assert(tool_views(out@) =~= Seq::<ToolView>::empty());
        let text = match reply {
            WsFrame::Text(t) => t,
            _ => return out,
        };
        let doc = match crate::json::parse_json(text.as_str()) {
            Ok(d) => d,
            Err(_) => return out,
        };
        let items = match doc.get_array("tools") {
            Some(items) => items,
            None => return out,
        };
        let ghost iv = crate::json::items_view(items@);
        let mut i: usize = 0;
        while i < items.len()
            invariant
                iv == crate::json::items_view(items@),
                0 <= i <= items@.len(),
                tool_views(out@) == manual_entries(iv.take(i as int)),
            decreases items@.len() - i,
        {
            assert(iv.take(i + 1).drop_last() =~= iv.take(i as int));
            match Self::manual_entry_tool(&items[i]) {
                Some(t) => {
                    out.push(t);
                    assert(tool_views(out@) =~= tool_views(out@.drop_last()).push(out@.last().view()));
                },
                None => {},
            }
            i = i + 1;
        }
        assert(iv.take(items@.len() as int) =~= iv);
        out
    }

    /// What a frame adds to the results of a call (see `spec_reply_value`).
    pub fn reply_value(&self, frame: WsFrame) -> (r: (Option<JsonValue>, bool))
        ensures
            (opt_json_view(r.0), r.1) == spec_reply_value(frame),
    {
        match frame {
            WsFrame::Text(t) => (Some(parse_or_string(t.as_str())), false),
            WsFrame::Binary(b) => match utf8_text(b) {
                Some(t) => (Some(parse_or_string(t.as_str())), false),
                None => (None, false),
            },
            WsFrame::Control => (None, false),
            WsFrame::Close => (None, true),
            WsFrame::Failed(_) => (None, true),
        }
    }

    fn message_result(text: &str) -> (r: Result<JsonValue, TransportError>)
        ensures
            item_view(r) == message_item(text@),
    {
        match crate::json::parse_json(text) {
            Ok(v) => Ok(v),
            Err(e) => Err(
                TransportError::with_message(
                    ErrorKind::Parse,
                    crate::chars::concat2("Failed to parse WebSocket message: ", e.as_str()),
                ),
            ),
        }
    }

    /// What a stream hands on for a frame (see `spec_stream_step`).
    pub fn stream_step(&self, frame: WsFrame) -> (r: StreamStep)
        ensures
            r.view() == spec_stream_step(frame),
    {
        match frame {
            WsFrame::Text(t) => StreamStep::one(Self::message_result(t.as_str()), false),
            WsFrame::Binary(b) => match utf8_text(b) {
                Some(t) => StreamStep::one(Self::message_result(t.as_str()), false),
                None => StreamStep::empty(false),
            },
            WsFrame::Control => StreamStep::empty(false),
            WsFrame::Close => StreamStep::empty(true),
            WsFrame::Failed(m) => {
                let e = TransportError::with_message(
                    ErrorKind::RequestFailed,
                    crate::chars::concat2("WebSocket receive error: ", m.as_str()),
                );
                StreamStep::one(Err(e), true)
            },
        }
    }
}

} // verus!
