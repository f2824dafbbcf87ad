use vstd::prelude::*;
use crate::auth::{
    http_auth_err, http_auth_ok, http_auth_placeable, http_auth_placement, place_http_auth,
    AuthConfig, CredentialPlacement,
};
use crate::chars::{pair_views, spec_unicode_uppercase};
use crate::error::{ErrorKind, TransportError};
use crate::json::{json_stream_scan, members_view, spec_json_stream_scan, JsonValue, JsonView};
use crate::providers::StreamableHttpProvider;
use crate::tools::Tool;
use crate::transports::common::{
    append_opt_headers, args_object, call_name, item_view, items_view, opt_headers_view,
    spec_call_name, spec_tool_url, status_error, tool_url, StreamStep, ToolArgs,
};
use crate::transports::http::{auth_parts, spec_method, HttpClientTransport, HttpMethod};

verus! {

/// Calls tools over HTTP and reads results streamed as a sequence of JSON
/// values.
pub struct StreamableHttpTransport;

/// A call to send: the method and URL, the headers in the order they are
/// added, the arguments (as query pairs for GET, else as a JSON body),
/// and the credentials' query pairs, appended after the arguments'.
#[derive(Debug, PartialEq)]
pub struct StreamCallPlan {
    pub method: HttpMethod,
    pub url: String,
    pub headers: Vec<(String, String)>,
    pub args: JsonValue,
    pub args_in_query: bool,
    pub auth_query: Vec<(String, String)>,
}

/// The model of a call: method, URL, headers, arguments, whether they go in
/// the query, and the credentials' query pairs.
pub ghost struct StreamCallView {
    pub method: HttpMethod,
    pub url: Seq<char>,
    pub headers: Seq<(Seq<char>, Seq<char>)>,
    pub args: JsonView,
    pub args_in_query: bool,
    pub auth_query: Seq<(Seq<char>, Seq<char>)>,
}

impl StreamCallPlan {
    pub open spec fn view(&self) -> StreamCallView {
        StreamCallView {
            method: self.method,
            url: self.url@,
            headers: pair_views(self.headers@),
            args: self.args@,
            args_in_query: self.args_in_query,
            auth_query: pair_views(self.auth_query@),
        }
    }
}

/// The call of `tool`: the provider's method (upper-cased; others than GET,
/// POST, PUT, DELETE, PATCH are refused) on the tool's URL under the
/// provider's, with the provider's headers and the credentials placed by
/// the shared HTTP rule; the arguments go in the query for GET and in a
/// JSON body otherwise.
pub open spec fn spec_stream_call(prov: StreamableHttpProvider, tool: Seq<char>, args: Seq<(Seq<char>, JsonView)>) -> Result<StreamCallView, (ErrorKind, Seq<char>)> {
    let upper = spec_unicode_uppercase(prov.http_method@);
    match spec_method(upper) {
        None => Err((ErrorKind::UnsupportedMethod, "Unsupported HTTP method: "@ + upper)),
        Some(m) => match auth_parts(prov.base.auth, "HTTP stream"@) {
            Err(e) => Err(e),
            Ok((ah, aq)) => Ok(
                StreamCallView {
                    method: m,
                    url: spec_tool_url(prov.url@, spec_call_name(tool, prov.base.name@)),
                    headers: opt_headers_view(prov.headers) + ah,
                    args: JsonView::Object(args),
                    args_in_query: m == HttpMethod::Get,
                    auth_query: aq,
                },
            ),
        },
    }
}

/// The values a JSON scan read, as stream items.
pub open spec fn value_items(vals: Seq<JsonView>) -> Seq<Result<JsonView, Seq<char>>> {
    vals.map_values(|v: JsonView| Ok::<JsonView, Seq<char>>(v))
}

/// Feeding a chunk of the body, from the buffered bytes `buf`: the chunk
/// joins the buffer; every value the buffer starts with is handed on; an
/// error that is not an early end of input hands on `Failed to parse JSON
/// from stream: <message>` and ends the stream; otherwise the bytes up to
/// the end of the last value read leave the buffer.  Gives the new buffer,
/// the items, and whether the stream ends.
pub open spec fn spec_stream_feed(buf: Seq<u8>, chunk: Seq<u8>) -> (Seq<u8>, Seq<Result<JsonView, Seq<char>>>, bool) {
    let b = buf + chunk;
    let (vals, offs, stop) = spec_json_stream_scan(b);
    let items = value_items(vals);
    match stop {
        Some((false, m)) => (b, items.push(Err("Failed to parse JSON from stream: "@ + m)), true),
        _ => {
            let off: int = if offs.len() > 0 {
                offs.last() as int
            } else {
                0
            };
            (
                if 0 < off && off <= b.len() {
                    b.skip(off)
                } else {
                    b
                },
                items,
                false,
            )
        },
    }
}

/// A chunk that the framer holds whole (it completes no value, ends
/// nothing, and stays in the buffer with what was there) may as well have
/// come joined to the chunk after it: feeding the two one after the other
/// hands on the same items, ends the same way, and leaves the same buffer
/// as feeding them joined.
pub proof fn law_held_chunk_joins_next(buf: Seq<u8>, a: Seq<u8>, b: Seq<u8>)
    requires
        spec_stream_feed(buf, a).0 == buf + a,
        spec_stream_feed(buf, a).1.len() == 0,
        !spec_stream_feed(buf, a).2,
    ensures
        spec_stream_feed(spec_stream_feed(buf, a).0, b) == spec_stream_feed(buf, a + b),
{
    assert(buf + a + b =~= buf + (a + b));
}

/// Splits a streamed body into JSON values, chunk by chunk.
pub struct JsonStreamFramer {
    buffer: Vec<u8>,
}

impl JsonStreamFramer {
    /// The bytes received and not yet read as values.
    pub closed spec fn view(&self) -> Seq<u8> {
        self.buffer@
    }

    /// A framer at the start of a body.
    pub fn new() -> (r: JsonStreamFramer)
        ensures
            r.view() == Seq::<u8>::empty(),
    {
        JsonStreamFramer { buffer: Vec::new() }
    }

    /// Feeds the next chunk of the body (see `spec_stream_feed`).
    pub fn push_chunk(&mut self, chunk: &[u8]) -> (r: StreamStep)
        ensures
            ({
                let (b, items, fin) = spec_stream_feed(old(self).view(), chunk@);
                final(self).view() == b && r.view() == (items, fin)
            }),
    {
        let ghost b0 = self.buffer@;
        self.buffer.extend_from_slice(chunk);
        assert(self.buffer@ =~= b0 + chunk@);
        let (vals, offs, stop) = json_stream_scan(self.buffer.as_slice());
        let ghost vv = crate::json::items_view(vals@);
        let mut items: Vec<Result<JsonValue, TransportError>> = Vec::new();
        let ghost vs = vals@;
        for v in it: vals
            invariant
                it.seq() == vs,
                vv == crate::json::items_view(vs),
                items_view(items@) == value_items(crate::json::items_view(vs.take(it.index() as int))),
        {
            let ghost before = items_view(items@);
            items.push(Ok(v));
            proof {
                assert(vs.take(it.index() + 1) =~= vs.take(it.index() as int).push(v));
                assert(items_view(items@) =~= before.push(Ok::<JsonView, Seq<char>>(v@)));
                assert(value_items(crate::json::items_view(vs.take(it.index() + 1))) =~= value_items(crate::json::items_view(vs.take(it.index() as int))).push(Ok::<JsonView, Seq<char>>(v@)));
            }
        }
        assert(vs.take(vs.len() as int) =~= vs);
        assert(items_view(items@) =~= value_items(vv));
        match stop {
            Some((false, m)) => {
                let e = TransportError::with_message(
                    ErrorKind::Parse,
                    crate::chars::concat2("Failed to parse JSON from stream: ", m.as_str()),
                );
                let ghost before = items_view(items@);
                items.push(Err(e));
                assert(items_view(items@) =~= before.push(item_view(Err::<JsonValue, TransportError>(e))));
                StreamStep { items, finished: true }
            },
            _ => {
                let off: usize = if offs.len() > 0 {
                    offs[offs.len() - 1]
                } else {
                    0
                };
                if 0 < off && off <= self.buffer.len() {
                    let rest = self.buffer.split_off(off);
                    self.buffer = rest;
                    assert(self.buffer@ =~= (b0 + chunk@).skip(off as int));
                }
                StreamStep { items, finished: false }
            },
        }
    }

    /// The item for a failure to read the body, which ends the stream.
    pub fn read_failed(message: &str) -> (r: StreamStep)
        ensures
            r.view() == (seq![Err::<JsonView, Seq<char>>("Error reading bytes from stream: "@ + message@)], true),
    {
        let e = crate::transports::common::error_with(ErrorKind::RequestFailed, "Error reading bytes from stream: ", message);
        StreamStep::one(Err(e), true)
    }

    /// Ends the body: bytes left over that form no value are an error.
    pub fn finish(&self) -> (r: Option<TransportError>)
        ensures
            r is Some <==> self.view().len() > 0,
            r matches Some(e) ==> e.kind == ErrorKind::IncompleteFrame
                && e.message@ == "Stream ended with incomplete JSON frame"@,
    {
        if self.buffer.len() > 0 {
            Some(TransportError::new(ErrorKind::IncompleteFrame, "Stream ended with incomplete JSON frame"))
        } else {
            None
        }
    }
}

impl StreamableHttpTransport {
    /// A streaming HTTP transport.
    pub fn new() -> (r: StreamableHttpTransport) {
        StreamableHttpTransport
    }

    /// Where this transport's requests carry the credentials.
    pub fn apply_auth(&self, auth: &AuthConfig) -> (r: Result<CredentialPlacement, TransportError>)
        ensures
            r is Ok <==> http_auth_placeable(*auth),
            match r {
                Ok(p) => http_auth_ok(*auth, p),
                Err(e) => http_auth_err(*auth, "HTTP stream"@, e),
            },
    {
        http_auth_placement(auth, "HTTP stream")
    }

    /// The tools found on registration: discovery is left to the plain
    /// HTTP transport, so none.
    pub fn register_tool_provider(&self) -> (r: Vec<Tool>)
        ensures
            r@.len() == 0,
    {
        Vec::new()
    }

    /// The call of `tool_name` with `args` (see `spec_stream_call`).
    pub fn call_request(&self, prov: &StreamableHttpProvider, tool_name: &str, args: &ToolArgs) -> (r: Result<StreamCallPlan, TransportError>)
        ensures
            match r {
                Ok(p) => spec_stream_call(*prov, tool_name@, members_view(args@)) == Ok::<
                    StreamCallView,
                    (ErrorKind, Seq<char>),
                >(p.view()),
                Err(e) => spec_stream_call(*prov, tool_name@, members_view(args@)) == Err::<
                    StreamCallView,
                    (ErrorKind, Seq<char>),
                >((e.kind, e.message@)),
            },
    {
        let name = call_name(tool_name, prov.base.name.as_str());
        let url = tool_url(prov.url.as_str(), name.as_str());
        let http = HttpClientTransport::new();
        let method = match http.method_of(prov.http_method.as_str()) {
            Ok(m) => m,
            Err(e) => return Err(e),
        };
        let mut headers: Vec<(String, String)> = Vec::new();
        let mut auth_query: Vec<(String, String)> = Vec::new();
        assert(pair_views(headers@) =~= Seq::<(Seq<char>, Seq<char>)>::empty());
        assert(pair_views(auth_query@) =~= Seq::<(Seq<char>, Seq<char>)>::empty());
        append_opt_headers(&mut headers, &prov.headers);
        match &prov.base.auth {
            Some(a) => match place_http_auth(a, "HTTP stream", &mut headers, &mut auth_query) {
                Ok(()) => {},
                Err(e) => return Err(e),
            },
            None => {
                assert(pair_views(headers@) =~= opt_headers_view(prov.headers) + Seq::<(Seq<char>, Seq<char>)>::empty());
            },
        }
        let args_in_query = match method {
            HttpMethod::Get => true,
            _ => false,
        };
        Ok(StreamCallPlan { method, url, headers, args: args_object(args), args_in_query, auth_query })
    }

    /// The refusal of a call answered with a failure status.
    pub fn call_failed(status: &str) -> (r: TransportError)
        ensures
            r.kind == ErrorKind::RequestFailed,
            r.message@ == "HTTP request failed with status: "@ + status@,
    {
        status_error("HTTP request failed with status: ", status)
    }
}

} // verus!
