use vstd::prelude::*;
use crate::auth::{basic_credentials, basic_header_value, AuthConfig};
use crate::chars::{
    ascii_lower_seq, concat2, owned, pair_views, str_eq, to_ascii_lower, u64_to_decimal,
};
use crate::error::{ErrorKind, TransportError};
use crate::json::{
    members_view, render_json, spec_parse_json, spec_render_json, JsonValue, JsonView,
};
use crate::providers::GrpcProvider;
use crate::tools::{
    default_schema_view, plain_tool, plain_tool_view, tool_views, Tool, ToolInputOutputSchema,
    ToolView,
};
use crate::transports::common::{args_object, item_view, json_or_text, parse_or_string, ToolArgs};

verus! {

/// Calls tools on a UTCP gRPC service.
pub struct GrpcTransport;

/// The endpoint of the service: `https` when the provider uses TLS, else
/// `http`, then `://host:port`.
pub open spec fn spec_endpoint(prov: GrpcProvider) -> Seq<char> {
    (if prov.use_ssl {
        "https"@
    } else {
        "http"@
    }) + "://"@ + prov.host@ + ":"@ + crate::chars::decimal(prov.port as nat)
}

/// The metadata credentials add to a request: basic credentials in
/// `authorization`; an API key whose location is `header` (in any case)
/// under its lower-cased name.  Other API key locations, and other kinds of
/// credentials, are refused with the message given.
pub open spec fn spec_grpc_metadata(auth: Option<AuthConfig>) -> Result<Seq<(Seq<char>, Seq<char>)>, Seq<char>> {
    match auth {
        None => Ok(seq![]),
        Some(AuthConfig::Basic(b)) => Ok(
            seq![("authorization"@, basic_credentials(b.username@, b.password@))],
        ),
        Some(AuthConfig::ApiKey(k)) => if ascii_lower_seq(k.location@) != "header"@ {
            Err("gRPC API key auth only supports the 'header' location"@)
        } else {
            Ok(seq![(ascii_lower_seq(k.var_name@), k.api_key@)])
        },
        Some(AuthConfig::OAuth2(_)) => Err(
            "Only basic and api key auth are supported for gRPC providers"@,
        ),
    }
}

/// The tools a manual lists: each entry's name and description, default
/// schemas, and the tag `grpc`.
pub open spec fn manual_tools(entries: Seq<(String, String)>) -> Seq<ToolView> {
    entries.map_values(|e: (String, String)| plain_tool_view(e.0@, e.1@, seq!["grpc"@]))
}

/// The value of a call's result text: null when empty, else its JSON, or
/// the text itself as a string where it is not JSON.
pub open spec fn spec_call_result(text: Seq<char>) -> JsonView {
    if text.len() == 0 {
        JsonView::Null
    } else {
        json_or_text(text)
    }
}

/// The stream item of a result text: null when empty, else its JSON, or
/// the parse error.
pub open spec fn spec_stream_item(text: Seq<char>) -> Result<JsonView, Seq<char>> {
    if text.len() == 0 {
        Ok(JsonView::Null)
    } else {
        match spec_parse_json(text) {
            Ok(v) => Ok(v),
            Err(e) => Err("Failed to parse stream item: "@ + e),
        }
    }
}

impl GrpcTransport {
    /// A gRPC transport.
    pub fn new() -> (r: GrpcTransport) {
        GrpcTransport
    }

    /// The schema given to the tools of a manual.
    pub fn default_schema() -> (r: ToolInputOutputSchema)
        ensures
            r.view() == default_schema_view(),
    {
        crate::tools::default_schema()
    }

    /// The endpoint of the provider's service (see `spec_endpoint`).
    pub fn endpoint(&self, prov: &GrpcProvider) -> (r: String)
        ensures
            r@ == spec_endpoint(*prov),
    {
        let scheme = if prov.use_ssl {
            "https"
        } else {
            "http"
        };
        let port = u64_to_decimal(prov.port as u64);
        let head = crate::chars::concat3(scheme, "://", prov.host.as_str());
        crate::chars::concat3(head.as_str(), ":", port.as_str())
    }

    /// The metadata the provider's credentials add (see `spec_grpc_metadata`),
    /// or the refusal of them.
    pub fn apply_auth(&self, prov: &GrpcProvider) -> (r: Result<Vec<(String, String)>, TransportError>)
        ensures
            match r {
                Ok(m) => spec_grpc_metadata(prov.base.auth) == Ok::<
                    Seq<(Seq<char>, Seq<char>)>,
                    Seq<char>,
                >(pair_views(m@)),
                Err(e) => e.kind == ErrorKind::UnsupportedAuth && spec_grpc_metadata(prov.base.auth)
                    == Err::<Seq<(Seq<char>, Seq<char>)>, Seq<char>>(e.message@),
            },
    {
        let mut out: Vec<(String, String)> = Vec::new();
        match &prov.base.auth {
            None => {
                assert(pair_views(out@) =~= Seq::<(Seq<char>, Seq<char>)>::empty());
                Ok(out)
            },
            Some(AuthConfig::Basic(b)) => {
                out.push((owned("authorization"), basic_header_value(b.username.as_str(), b.password.as_str())));
                assert(pair_views(out@) =~= seq![("authorization"@, basic_credentials(b.username@, b.password@))]);
                Ok(out)
            },
            Some(AuthConfig::ApiKey(k)) => {
                let loc = to_ascii_lower(k.location.as_str());
                if !str_eq(loc.as_str(), "header") {
                    return Err(TransportError::new(ErrorKind::UnsupportedAuth, "gRPC API key auth only supports the 'header' location"));
                }
                out.push((to_ascii_lower(k.var_name.as_str()), k.api_key.clone()));
                assert(pair_views(out@) =~= seq![(ascii_lower_seq(k.var_name@), k.api_key@)]);
                Ok(out)
            },
            Some(AuthConfig::OAuth2(_)) => Err(
                TransportError::new(ErrorKind::UnsupportedAuth, "Only basic and api key auth are supported for gRPC providers"),
            ),
        }
    }

    /// The tools of a manual given as (name, description) entries (see
    /// `manual_tools`).
    pub fn tools_from_manual(&self, entries: &Vec<(String, String)>) -> (r: Vec<Tool>)
        ensures
            tool_views(r@) == manual_tools(entries@),
    {
        let mut tags: Vec<String> = Vec::new();
        tags.push(owned("grpc"));
        assert(crate::chars::views(tags@) =~= seq!["grpc"@]);
        let mut out: Vec<Tool> = Vec::new();
        let mut i: usize = 0;
        while i < entries.len()
            invariant
                0 <= i <= entries@.len(),
                crate::chars::views(tags@) == seq!["grpc"@],
                tool_views(out@) == manual_tools(entries@.take(i as int)),
            decreases entries@.len() - i,
        {
            let t = plain_tool(entries[i].0.as_str(), entries[i].1.as_str(), &tags);
            let ghost before = tool_views(out@);
            out.push(t);
            assert(tool_views(out@) =~= before.push(t.view()));
            assert(manual_tools(entries@.take(i + 1)) =~= manual_tools(entries@.take(i as int)).push(t.view()));
            i = i + 1;
        }
        assert(entries@.take(entries@.len() as int) =~= entries@);
        out
    }

    /// The `args_json` of a call request: the arguments as JSON text.
    pub fn args_json(&self, args: &ToolArgs) -> (r: String)
        ensures
            r@ == spec_render_json(JsonView::Object(members_view(args@))),
    {
        render_json(&args_object(args))
    }

    /// The value of a call's result text (see `spec_call_result`).
    pub fn call_result(&self, result_json: &str) -> (r: JsonValue)
        ensures
            r@ == spec_call_result(result_json@),
    {
        if result_json.is_empty() {
            JsonValue::Null
        } else {
            parse_or_string(result_json)
        }
    }

    /// The stream item of a result text (see `spec_stream_item`).
    pub fn stream_item(&self, result_json: &str) -> (r: Result<JsonValue, TransportError>)
        ensures
            item_view(r) == spec_stream_item(result_json@),
    {
        if result_json.is_empty() {
            Ok(JsonValue::Null)
        } else {
            match crate::json::parse_json(result_json) {
                Ok(v) => Ok(v),
                Err(e) => Err(TransportError::with_message(ErrorKind::Parse, concat2("Failed to parse stream item: ", e.as_str()))),
            }
        }
    }

    /// The item for a failed stream, which ends it.
    pub fn stream_failed(&self, status: &str) -> (r: TransportError)
        ensures
            r.kind == ErrorKind::RemoteError,
            r.message@ == "gRPC stream error: "@ + status@,
    {
        crate::transports::common::error_with(ErrorKind::RemoteError, "gRPC stream error: ", status)
    }
}

} // verus!
