use vstd::prelude::*;
use crate::auth::{
    auth_headers_of, auth_query_of, http_auth_err, http_auth_ok, http_auth_placeable,
    http_auth_placement, http_auth_refusal, place_http_auth, AuthConfig, CredentialPlacement,
};
use crate::chars::{
    concat3, contains_seq, owned, pair_views, replace_all, replace_str, spec_unicode_uppercase,
    str_contains, str_eq, unicode_uppercase,
};
use crate::error::{ErrorKind, TransportError};
use crate::json::{members_view, render_json, spec_render_json, JsonValue, JsonView};
use crate::providers::HttpProvider;
use crate::tools::{
    manifest_text_tools_or_empty, tool_views, tools_from_manifest_text, Tool, ToolView,
};
use crate::transports::common::{
    append_opt_headers, args_object, opt_headers_view, status_error, ToolArgs,
};

verus! {

/// Calls tools with plain HTTP requests.
pub struct HttpClientTransport;

/// The HTTP methods a provider may name.
#[derive(PartialEq, Eq, Structural, Clone, Copy, Debug)]
pub enum HttpMethod {
    Get,
    Post,
    Put,
    Delete,
    Patch,
}

/// A request to send: method, URL, headers in the order they are added,
/// query pairs in the order they are appended, and the JSON body if any.
#[derive(Debug, PartialEq)]
pub struct HttpRequestPlan {
    pub method: HttpMethod,
    pub url: String,
    pub headers: Vec<(String, String)>,
    pub query: Vec<(String, String)>,
    pub body: Option<JsonValue>,
}

/// The model of a request.
pub ghost struct HttpRequestView {
    pub method: HttpMethod,
    pub url: Seq<char>,
    pub headers: Seq<(Seq<char>, Seq<char>)>,
    pub query: Seq<(Seq<char>, Seq<char>)>,
    pub body: Option<JsonView>,
}

impl HttpRequestPlan {
    pub open spec fn view(&self) -> HttpRequestView {
        HttpRequestView {
            method: self.method,
            url: self.url@,
            headers: pair_views(self.headers@),
            query: pair_views(self.query@),
            body: match self.body {
                Some(b) => Some(b@),
                None => None,
            },
        }
    }
}

/// The method an upper-cased method name stands for.
pub open spec fn spec_method(upper: Seq<char>) -> Option<HttpMethod> {
    if upper == "GET"@ {
        Some(HttpMethod::Get)
    } else if upper == "POST"@ {
        Some(HttpMethod::Post)
    } else if upper == "PUT"@ {
        Some(HttpMethod::Put)
    } else if upper == "DELETE"@ {
        Some(HttpMethod::Delete)
    } else if upper == "PATCH"@ {
        Some(HttpMethod::Patch)
    } else {
        None
    }
}

/// Whether the arguments go in a JSON body (POST, PUT, PATCH) rather than
/// in the query.
pub open spec fn sends_body(m: HttpMethod) -> bool {
    m == HttpMethod::Post || m == HttpMethod::Put || m == HttpMethod::Patch
}

/// The placeholder `{key}` that an argument fills in a URL.
pub open spec fn placeholder(key: Seq<char>) -> Seq<char> {
    "{"@ + key + "}"@
}

/// The URL with path parameters filled in: for each argument in turn, every
/// `{key}` in the URL becomes the JSON text of its value.
pub open spec fn fill_path(url: Seq<char>, args: Seq<(Seq<char>, JsonView)>) -> Seq<char>
    decreases args.len(),
{
    if args.len() == 0 {
        url
    } else {
        let u = fill_path(url, args.drop_last());
        let (k, v) = args.last();
        if contains_seq(u, placeholder(k)) {
            replace_all(u, placeholder(k), spec_render_json(v))
        } else {
            u
        }
    }
}

/// The arguments as query pairs: each name with the JSON text of its value.
pub open spec fn query_args(args: Seq<(Seq<char>, JsonView)>) -> Seq<(Seq<char>, Seq<char>)> {
    args.map_values(|a: (Seq<char>, JsonView)| (a.0, spec_render_json(a.1)))
}

/// The credentials' headers and query pairs, or the refusal of them (its
/// kind and message).
pub open spec fn auth_parts(auth: Option<AuthConfig>, transport: Seq<char>) -> Result<(Seq<(Seq<char>, Seq<char>)>, Seq<(Seq<char>, Seq<char>)>), (ErrorKind, Seq<char>)> {
    match auth {
        None => Ok((seq![], seq![])),
        Some(a) => if http_auth_placeable(a) {
            Ok((auth_headers_of(a), auth_query_of(a)))
        } else {
            Err((ErrorKind::UnsupportedAuth, http_auth_refusal(a, transport)))
        },
    }
}

/// The discovery request: a GET of the provider's URL with its headers and
/// the credentials placed by the shared HTTP rule.
pub open spec fn spec_discovery_request(prov: HttpProvider) -> Result<HttpRequestView, (ErrorKind, Seq<char>)> {
    match auth_parts(prov.base.auth, "HTTP"@) {
        Err(e) => Err(e),
        Ok((ah, aq)) => Ok(
            HttpRequestView {
                method: HttpMethod::Get,
                url: prov.url@,
                headers: opt_headers_view(prov.headers) + ah,
                query: aq,
                body: None,
            },
        ),
    }
}

/// The request of a call: the provider's method (upper-cased; others than
/// GET, POST, PUT, DELETE, PATCH are refused) on its URL with the path
/// parameters filled, its headers and credentials, and the arguments as a
/// JSON body for POST, PUT and PATCH, or else as query pairs after those of
/// the credentials.
pub open spec fn spec_call_request(prov: HttpProvider, args: Seq<(Seq<char>, JsonView)>) -> Result<HttpRequestView, (ErrorKind, Seq<char>)> {
    let upper = spec_unicode_uppercase(prov.http_method@);
    match spec_method(upper) {
        None => Err((ErrorKind::UnsupportedMethod, "Unsupported HTTP method: "@ + upper)),
        Some(m) => match auth_parts(prov.base.auth, "HTTP"@) {
            Err(e) => Err(e),
            Ok((ah, aq)) => Ok(
                HttpRequestView {
                    method: m,
                    url: fill_path(prov.url@, args),
                    headers: opt_headers_view(prov.headers) + ah,
                    query: if sends_body(m) {
                        aq
                    } else {
                        aq + query_args(args)
                    },
                    body: if sends_body(m) {
                        Some(JsonView::Object(args))
                    } else {
                        None
                    },
                },
            ),
        },
    }
}

/// A call sends its arguments as the JSON body when the method is POST, PUT
/// or PATCH, with only the credentials' pairs in the query; for GET and
/// DELETE there is no body and the arguments follow the credentials' pairs
/// in the query.
pub proof fn law_arguments_in_body_or_query(prov: HttpProvider, args: Seq<(Seq<char>, JsonView)>)
    requires
        spec_call_request(prov, args) is Ok,
    ensures
        ({
            let v = spec_call_request(prov, args)->Ok_0;
            let aq = auth_parts(prov.base.auth, "HTTP"@)->Ok_0.1;
            &&& Some(v.method) == spec_method(spec_unicode_uppercase(prov.http_method@))
            &&& (v.method == HttpMethod::Post || v.method == HttpMethod::Put || v.method == HttpMethod::Patch)
                ==> v.body == Some(JsonView::Object(args)) && v.query == aq
            &&& (v.method == HttpMethod::Get || v.method == HttpMethod::Delete)
                ==> v.body is None && v.query == aq + query_args(args)
        }),
{
}

/// Whether a plan's outcome matches its model.
pub open spec fn plan_matches(r: Result<HttpRequestPlan, TransportError>, m: Result<HttpRequestView, (ErrorKind, Seq<char>)>) -> bool {
    match r {
        Ok(p) => m == Ok::<HttpRequestView, (ErrorKind, Seq<char>)>(p.view()),
        Err(e) => m == Err::<HttpRequestView, (ErrorKind, Seq<char>)>((e.kind, e.message@)),
    }
}

impl HttpClientTransport {
    /// An HTTP transport.
    pub fn new() -> (r: HttpClientTransport) {
        HttpClientTransport
    }

    /// Where this transport's requests carry the credentials.
    pub fn apply_auth(&self, auth: &AuthConfig) -> (r: Result<CredentialPlacement, TransportError>)
        ensures
            r is Ok <==> http_auth_placeable(*auth),
            match r {
                Ok(p) => http_auth_ok(*auth, p),
                Err(e) => http_auth_err(*auth, "HTTP"@, e),
            },
    {
        http_auth_placement(auth, "HTTP")
    }

    /// The method a provider names (see `spec_method`), or the refusal of it.
    pub fn method_of(&self, method: &str) -> (r: Result<HttpMethod, TransportError>)
        ensures
            match r {
                Ok(m) => spec_method(spec_unicode_uppercase(method@)) == Some(m),
                Err(e) => spec_method(spec_unicode_uppercase(method@)) is None
                    && e.kind == ErrorKind::UnsupportedMethod
                    && e.message@ == "Unsupported HTTP method: "@ + spec_unicode_uppercase(method@),
            },
    {
        let upper = unicode_uppercase(method);
        let u = upper.as_str();
        if str_eq(u, "GET") {
            Ok(HttpMethod::Get)
        } else if str_eq(u, "POST") {
            Ok(HttpMethod::Post)
        } else if str_eq(u, "PUT") {
            Ok(HttpMethod::Put)
        } else if str_eq(u, "DELETE") {
            Ok(HttpMethod::Delete)
        } else if str_eq(u, "PATCH") {
            Ok(HttpMethod::Patch)
        } else {
            Err(crate::transports::common::error_with(ErrorKind::UnsupportedMethod, "Unsupported HTTP method: ", u))
        }
    }

    /// The URL with path parameters filled in (see `fill_path`).
    pub fn fill_path_params(&self, url: &str, args: &ToolArgs) -> (r: String)
        ensures
            r@ == fill_path(url@, members_view(args@)),
    {
        let ghost mv = members_view(args@);
        let mut out = owned(url);
        let mut i: usize = 0;
        assert(mv.take(0) =~= Seq::<(Seq<char>, JsonView)>::empty());
        while i < args.len()
            invariant
                mv == members_view(args@),
                0 <= i <= args@.len(),
                out@ == fill_path(url@, mv.take(i as int)),
            decreases args@.len() - i,
        {
            assert(mv.take(i + 1).drop_last() =~= mv.take(i as int));
            assert(mv.take(i + 1).last() == mv[i as int]);
            let ph = concat3("{", args[i].0.as_str(), "}");
            proof {
                reveal_strlit("{");
                reveal_strlit("}");
            }
            if str_contains(out.as_str(), ph.as_str()) {
                let text = render_json(&args[i].1);
                out = replace_str(out.as_str(), ph.as_str(), text.as_str());
            }
            i = i + 1;
        }
        assert(mv.take(args@.len() as int) =~= mv);
        out
    }

    fn query_pairs(args: &ToolArgs) -> (r: Vec<(String, String)>)
        ensures
            pair_views(r@) == query_args(members_view(args@)),
    {
        let mut out: Vec<(String, String)> = Vec::new();
        let mut i: usize = 0;
        while i < args.len()
            invariant
                0 <= i <= args@.len(),
                pair_views(out@) == query_args(members_view(args@.take(i as int))),
            decreases args@.len() - i,
        {
            let ghost before = pair_views(out@);
            out.push((args[i].0.clone(), render_json(&args[i].1)));
            assert(pair_views(out@) =~= before.push((args@[i as int].0@, spec_render_json(args@[i as int].1@)))) ;
            assert(query_args(members_view(args@.take(i + 1))) =~= query_args(members_view(args@.take(i as int))).push(
                (args@[i as int].0@, spec_render_json(args@[i as int].1@)),
            ));
            i = i + 1;
        }
        assert(args@.take(args@.len() as int) =~= args@);
        out
    }

    /// The discovery request (see `spec_discovery_request`).
    pub fn discovery_request(&self, prov: &HttpProvider) -> (r: Result<HttpRequestPlan, TransportError>)
        ensures
            plan_matches(r, spec_discovery_request(*prov)),
    {
        let mut headers: Vec<(String, String)> = Vec::new();
        let mut query: Vec<(String, String)> = Vec::new();
        assert(pair_views(headers@) =~= Seq::<(Seq<char>, Seq<char>)>::empty());
        assert(pair_views(query@) =~= Seq::<(Seq<char>, Seq<char>)>::empty());
        append_opt_headers(&mut headers, &prov.headers);
        match &prov.base.auth {
            Some(a) => match place_http_auth(a, "HTTP", &mut headers, &mut query) {
                Ok(()) => {},
                Err(e) => return Err(e),
            },
            None => {
                assert(pair_views(headers@) =~= opt_headers_view(prov.headers) + Seq::<(Seq<char>, Seq<char>)>::empty());
            },
        }
        Ok(HttpRequestPlan { method: HttpMethod::Get, url: prov.url.clone(), headers, query, body: None })
    }

    /// The request of a call (see `spec_call_request`).
    pub fn call_request(&self, prov: &HttpProvider, args: &ToolArgs) -> (r: Result<HttpRequestPlan, TransportError>)
        ensures
            plan_matches(r, spec_call_request(*prov, members_view(args@))),
    {
        let url = self.fill_path_params(prov.url.as_str(), args);
        let method = match self.method_of(prov.http_method.as_str()) {
            Ok(m) => m,
            Err(e) => return Err(e),
        };
        let mut headers: Vec<(String, String)> = Vec::new();
        let mut query: Vec<(String, String)> = Vec::new();
        assert(pair_views(headers@) =~= Seq::<(Seq<char>, Seq<char>)>::empty());
        assert(pair_views(query@) =~= Seq::<(Seq<char>, Seq<char>)>::empty());
        append_opt_headers(&mut headers, &prov.headers);
        match &prov.base.auth {
            Some(a) => match place_http_auth(a, "HTTP", &mut headers, &mut query) {
                Ok(()) => {},
                Err(e) => return Err(e),
            },
            None => {
                assert(pair_views(headers@) =~= opt_headers_view(prov.headers) + Seq::<(Seq<char>, Seq<char>)>::empty());
            },
        }
        let body = match method {
            HttpMethod::Post | HttpMethod::Put | HttpMethod::Patch => Some(args_object(args)),
            _ => {
                let extra = Self::query_pairs(args);
                let ghost before = pair_views(query@);
                let mut extra = extra;
                query.append(&mut extra);
                assert(pair_views(query@) =~= before + query_args(members_view(args@)));
                None
            },
        };
        Ok(HttpRequestPlan { method, url, headers, query, body })
    }

    /// The tools a discovery body lists, none when it lists none.
    pub fn tools_from_body(&self, body: &str) -> (r: Vec<Tool>)
        ensures
            tool_views(r@) == manifest_text_tools_or_empty(body@),
    {
        match tools_from_manifest_text(body) {
            Some(ts) => ts,
            None => {
                let e: Vec<Tool> = Vec::new();
                assert(tool_views(e@) =~= Seq::<ToolView>::empty());
                e
            },
        }
    }

    /// The refusal of a discovery request answered with a failure status.
    pub fn discovery_failed(prov: &HttpProvider, status: &str) -> (r: TransportError)
        ensures
            r.kind == ErrorKind::RequestFailed,
            r.message@ == "Failed to fetch tools from "@ + prov.url@ + ": "@ + status@,
    {
        let head = concat3("Failed to fetch tools from ", prov.url.as_str(), ": ");
        status_error(head.as_str(), status)
    }

    /// The refusal of a call answered with a failure status.
    pub fn call_failed(status: &str) -> (r: TransportError)
        ensures
            r.kind == ErrorKind::RequestFailed,
            r.message@ == "HTTP request failed with status: "@ + status@,
    {
        status_error("HTTP request failed with status: ", status)
    }

    /// The refusal to stream: a plain HTTP reply is one value.
    pub fn call_tool_stream(&self) -> (r: TransportError)
        ensures
            r.kind == ErrorKind::StreamingUnsupported,
            r.message@ == "Streaming not supported by HttpClientTransport"@,
    {
        TransportError::new(ErrorKind::StreamingUnsupported, "Streaming not supported by HttpClientTransport")
    }
}

} // verus!
