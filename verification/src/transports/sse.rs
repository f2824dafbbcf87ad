use vstd::prelude::*;
use crate::auth::{
    http_auth_err, http_auth_ok, http_auth_placeable, http_auth_placement, AuthConfig,
    CredentialPlacement,
};
use crate::chars::{
    spec_utf8_lossy, utf8_lossy, concat2, has_prefix, owned, push_all, str_eq, trim_end_char,
    trim_end_matches_char, views,
};
use crate::error::{ErrorKind, TransportError};
use crate::json::{
    lookup, members_view, render_json, spec_parse_json, spec_render_json, JsonValue, JsonView,
};
use crate::providers::SseProvider;
use crate::tools::{
    manifest_text_tools_or_empty, tool_views, tools_from_manifest_text, Tool, ToolView,
};
use crate::transports::common::{
    append_headers, append_opt_headers, args_object, call_name, headers_view, item_view, items_view,
    object1, opt_headers_view, push_header, spec_call_name, spec_tool_url, status_error, tool_url,
    ToolArgs,
};

verus! {

/// Calls tools over HTTP and reads their results as server-sent events.
pub struct SseTransport;

/// What calling a tool takes: the URL, the headers in the order they are
/// set, and the JSON body.
#[derive(Debug, PartialEq)]
pub struct SseCallPlan {
    pub url: String,
    pub headers: Vec<(String, String)>,
    pub payload: JsonValue,
}

// ---------------------------------------------------------------------------
// Request building
// ---------------------------------------------------------------------------

/// The body sent: the arguments, wrapped as `{<body_field>: args}` when the
/// provider names a body field.
pub open spec fn spec_payload(body_field: Option<String>, args: Seq<(Seq<char>, JsonView)>) -> JsonView {
    match body_field {
        Some(f) => JsonView::Object(seq![(f@, JsonView::Object(args))]),
        None => JsonView::Object(args),
    }
}

/// The header text of an argument: a string as itself, a number or a
/// boolean as its JSON text; other values go in no header.
pub open spec fn header_text(v: JsonView) -> Option<Seq<char>> {
    match v {
        JsonView::Str(s) => Some(s),
        JsonView::Number(_) => Some(spec_render_json(v)),
        JsonView::Bool(b) => Some(
            if b {
                "true"@
            } else {
                "false"@
            },
        ),
        _ => None,
    }
}

/// The members other than those named `key`.
pub open spec fn remove_key(m: Seq<(Seq<char>, JsonView)>, key: Seq<char>) -> Seq<(Seq<char>, JsonView)>
    decreases m.len(),
{
    if m.len() == 0 {
        m
    } else {
        let r = remove_key(m.drop_last(), key);
        if m.last().0 != key {
            r.push(m.last())
        } else {
            r
        }
    }
}

/// Moving the named fields out of the arguments: each field, in order,
/// that is still among the arguments leaves them, and becomes a header when
/// its value has a header text.
pub open spec fn spec_split(fields: Seq<Seq<char>>, args: Seq<(Seq<char>, JsonView)>) -> (Seq<(Seq<char>, Seq<char>)>, Seq<(Seq<char>, JsonView)>)
    decreases fields.len(),
{
    if fields.len() == 0 {
        (seq![], args)
    } else {
        let (h, rest) = spec_split(fields.drop_last(), args);
        let f = fields.last();
        match lookup(rest, f) {
            Some(v) => (
                match header_text(v) {
                    Some(t) => h.push((f, t)),
                    None => h,
                },
                remove_key(rest, f),
            ),
            None => (h, rest),
        }
    }
}

/// The header fields the provider names, none when it names none.
pub open spec fn header_fields_view(prov: SseProvider) -> Seq<Seq<char>> {
    match prov.header_fields {
        Some(f) => views(f@),
        None => seq![],
    }
}

/// The headers of a request: `Accept` (the given type, JSON by default),
/// then the provider's headers, then those moved out of the arguments.
pub open spec fn spec_request_headers(prov: SseProvider, accept: Option<Seq<char>>, dynamic: Seq<(Seq<char>, Seq<char>)>) -> Seq<(Seq<char>, Seq<char>)> {
    seq![("Accept"@, match accept { Some(a) => a, None => "application/json"@ })] + opt_headers_view(prov.headers) + dynamic
}

// ---------------------------------------------------------------------------
// Decoding the event stream
// ---------------------------------------------------------------------------

/// The model of an item a stream hands on: a value or an error message.
pub type ItemView = Result<JsonView, Seq<char>>;

/// The item for the data of one event: its JSON, or a parse error.
pub open spec fn event_item(data: Seq<char>) -> ItemView {
    match spec_parse_json(data) {
        Ok(v) => Ok(v),
        Err(e) => Err("Failed to parse SSE data: "@ + e),
    }
}

/// One complete line of the stream, given the event data gathered so far:
/// a `data: ` line adds its rest to the data (after a newline when data is
/// already there); an empty line ends the event, handing on its data when
/// there is any; other lines are ignored.
pub open spec fn sse_line(data: Seq<char>, line: Seq<char>) -> (Seq<char>, Seq<ItemView>) {
    if has_prefix(line, "data: "@) {
        (
            if data.len() > 0 {
                data.push('\n') + line.skip(6)
            } else {
                line.skip(6)
            },
            seq![],
        )
    } else if line.len() == 0 {
        if data.len() > 0 {
            (seq![], seq![event_item(data)])
        } else {
            (data, seq![])
        }
    } else {
        (data, seq![])
    }
}

/// The decoder's state after `input`, from state (`pending` line, `data`),
/// and the items handed on meanwhile.  A newline completes the pending line
/// (without its trailing carriage returns); any other character extends it.
pub open spec fn sse_feed(pending: Seq<char>, data: Seq<char>, input: Seq<char>) -> (Seq<char>, Seq<char>, Seq<ItemView>)
    decreases input.len(),
{
    if input.len() == 0 {
        (pending, data, seq![])
    } else {
        let (p1, d1, out1) = sse_feed(pending, data, input.drop_last());
        let c = input.last();
        if c == '\n' {
            let (d2, out2) = sse_line(d1, trim_end_char(p1, '\r'));
            (seq![], d2, out1 + out2)
        } else {
            (p1.push(c), d1, out1)
        }
    }
}

/// What the end of the stream hands on: the data of an unfinished event.
pub open spec fn sse_flush(data: Seq<char>) -> Seq<ItemView> {
    if data.len() > 0 {
        seq![event_item(data)]
    } else {
        seq![]
    }
}

/// Feeding two pieces of input one after the other hands on the same items,
/// and leaves the same state, as feeding them joined.
pub proof fn law_sse_chunking(pending: Seq<char>, data: Seq<char>, a: Seq<char>, b: Seq<char>)
    ensures
        ({
            let (p1, d1, o1) = sse_feed(pending, data, a);
            let (p2, d2, o2) = sse_feed(p1, d1, b);
            sse_feed(pending, data, a + b) == (p2, d2, o1 + o2)
        }),
    decreases b.len(),
{
    let (p1, d1, o1) = sse_feed(pending, data, a);
    if b.len() == 0 {
        assert(a + b =~= a);
        assert(o1 + Seq::<ItemView>::empty() =~= o1);
    } else {
        law_sse_chunking(pending, data, a, b.drop_last());
        assert((a + b).drop_last() =~= a + b.drop_last());
        assert((a + b).last() == b.last());
        let (p2, d2, o2) = sse_feed(p1, d1, b.drop_last());
        let c = b.last();
        if c == '\n' {
            let (d3, o3) = sse_line(d2, trim_end_char(p2, '\r'));
            assert(o1 + o2 + o3 =~= o1 + (o2 + o3));
        }
    }
}

/// The decoder of an event stream.
pub struct SseDecoder {
    pending: Vec<char>,
    data: Vec<char>,
}

impl SseDecoder {
    /// The pending line and the event data gathered so far.
    pub closed spec fn view(&self) -> (Seq<char>, Seq<char>) {
        (self.pending@, self.data@)
    }

    /// A decoder at the start of a stream.
    pub fn new() -> (r: SseDecoder)
        ensures
            r.view() == (Seq::<char>::empty(), Seq::<char>::empty()),
    {
        SseDecoder { pending: Vec::new(), data: Vec::new() }
    }

    fn line_done(&mut self) -> (r: Vec<Result<JsonValue, TransportError>>)
        ensures
            ({
                let (d2, out) = sse_line(old(self).data@, trim_end_char(old(self).pending@, '\r'));
                &&& final(self).pending@ == Seq::<char>::empty()
                &&& final(self).data@ == d2
                &&& items_view(r@) == out
            }),
    {
        let line = trim_end_matches_char(&self.pending, '\r');
        self.pending = Vec::new();
        let mut out: Vec<Result<JsonValue, TransportError>> = Vec::new();
        assert(items_view(out@) =~= Seq::<ItemView>::empty());
        let prefix = crate::chars::chars_of("data: ");
        if crate::chars::starts_with(&line, &prefix) {
            proof {
                reveal_strlit("data: ");
            }
            if self.data.len() > 0 {
                self.data.push('\n');
            }
            let rest = crate::chars::slice_chars(&line, 6, line.len());
            assert(rest@ =~= line@.skip(6));
            push_all(&mut self.data, &rest);
        } else if line.len() == 0 {
            if self.data.len() > 0 {
                let item = Self::event(&self.data);
                let ghost iv = item_view(item);
                out.push(item);
                assert(items_view(out@) =~= seq![iv]);
                self.data = Vec::new();
            }
        }
        out
    }

    fn event(data: &Vec<char>) -> (r: Result<JsonValue, TransportError>)
        ensures
            item_view(r) == event_item(data@),
    {
        let text = crate::chars::string_from_chars(data.as_slice());
        match crate::json::parse_json(text.as_str()) {
            Ok(v) => Ok(v),
            Err(e) => Err(TransportError::with_message(ErrorKind::Parse, concat2("Failed to parse SSE data: ", e.as_str()))),
        }
    }

    /// Feeds the next piece of text of the stream, returning the items it
    /// completes (see `sse_feed`).
    pub fn push_text(&mut self, chunk: &str) -> (r: Vec<Result<JsonValue, TransportError>>)
        ensures
            ({
                let (p, d, out) = sse_feed(old(self).view().0, old(self).view().1, chunk@);
                final(self).view() == (p, d) && items_view(r@) == out
            }),
    {
        let cs = crate::chars::chars_of(chunk);
        let ghost p0 = self.pending@;
        let ghost d0 = self.data@;
        let mut out: Vec<Result<JsonValue, TransportError>> = Vec::new();
        let mut i: usize = 0;
        assert(cs@.take(0) =~= Seq::<char>::empty());
        assert(items_view(out@) =~= Seq::<ItemView>::empty());
        while i < cs.len()
            invariant
                0 <= i <= cs@.len(),
                cs@ == chunk@,
                ({
                    let (p, d, o) = sse_feed(p0, d0, cs@.take(i as int));
                    self.pending@ == p && self.data@ == d && items_view(out@) == o
                }),
            decreases cs@.len() - i,
        {
            assert(cs@.take(i + 1).drop_last() =~= cs@.take(i as int));
            assert(cs@.take(i + 1).last() == cs@[i as int]);
            if cs[i] == '\n' {
                let mut more = self.line_done();
                let ghost before = items_view(out@);
                let ghost extra = items_view(more@);
                out.append(&mut more);
                assert(items_view(out@) =~= before + extra);
            } else {
                self.pending.push(cs[i]);
            }
            i = i + 1;
        }
        assert(cs@.take(cs@.len() as int) =~= cs@);
        out
    }

    /// Feeds the next bytes of the stream, read as text with invalid
    /// sequences replaced (see `push_text`); valid UTF-8 is fed as the text
    /// it encodes.
    pub fn push_bytes(&mut self, chunk: &[u8]) -> (r: Vec<Result<JsonValue, TransportError>>)
        ensures
            ({
                let (p, d, out) = sse_feed(old(self).view().0, old(self).view().1, spec_utf8_lossy(chunk@));
                final(self).view() == (p, d) && items_view(r@) == out
            }),
            vstd::utf8::valid_utf8(chunk@) ==> ({
                let (p, d, out) = sse_feed(old(self).view().0, old(self).view().1, vstd::utf8::decode_utf8(chunk@));
                final(self).view() == (p, d) && items_view(r@) == out
            }),
    {
        let text = utf8_lossy(chunk);
        self.push_text(text.as_str())
    }

    /// Ends the stream, handing on the data of an unfinished event
    /// (see `sse_flush`); a line without its newline is dropped.
    pub fn finish(&self) -> (r: Option<Result<JsonValue, TransportError>>)
        ensures
            match r {
                Some(item) => sse_flush(self.view().1) == seq![item_view(item)],
                None => sse_flush(self.view().1) == Seq::<ItemView>::empty(),
            },
    {
        if self.data.len() > 0 {
            Some(Self::event(&self.data))
        } else {
            None
        }
    }
}

impl SseTransport {
    /// An SSE transport.
    pub fn new() -> (r: SseTransport) {
        SseTransport
    }

    /// The body sent for `args` (see `spec_payload`).
    pub fn build_payload(&self, prov: &SseProvider, args: ToolArgs) -> (r: JsonValue)
        ensures
            r@ == spec_payload(prov.body_field, members_view(args@)),
    {
        let obj = args_object(&args);
        match &prov.body_field {
            Some(f) => object1(f.as_str(), obj),
            None => obj,
        }
    }

    /// The header text of a value (see `header_text`).
    pub fn value_to_header(value: &JsonValue) -> (r: Option<String>)
        ensures
            match r {
                Some(s) => header_text(value@) == Some(s@),
                None => header_text(value@) is None,
            },
    {
        match value {
            JsonValue::Str(s) => Some(s.clone()),
            JsonValue::Number(_) => Some(render_json(value)),
            JsonValue::Bool(b) => Some(owned(if *b { "true" } else { "false" })),
            _ => None,
        }
    }

    fn find_member(m: &ToolArgs, key: &str) -> (r: Option<usize>)
        ensures
            match r {
                Some(i) => i < m@.len() && lookup(members_view(m@), key@) == Some(m@[i as int].1@),
                None => lookup(members_view(m@), key@) is None,
            },
    {
        let ghost mv = members_view(m@);
        let mut found: Option<usize> = None;
        let mut i: usize = 0;
        while i < m.len()
            invariant
                mv == members_view(m@),
                0 <= i <= m@.len(),
                match found {
                    Some(j) => j < i && lookup(mv.take(i as int), key@) == Some(m@[j as int].1@),
                    None => lookup(mv.take(i as int), key@) is None,
                },
            decreases m@.len() - i,
        {
            assert(mv.take(i + 1).drop_last() =~= mv.take(i as int));
            if str_eq(m[i].0.as_str(), key) {
                found = Some(i);
            }
            i = i + 1;
        }
        assert(mv.take(m@.len() as int) =~= mv);
        found
    }

    fn without_key(m: &ToolArgs, key: &str) -> (r: ToolArgs)
        ensures
            members_view(r@) == remove_key(members_view(m@), key@),
    {
        let ghost mv = members_view(m@);
        let mut out: ToolArgs = Vec::new();
        let mut i: usize = 0;
        assert(members_view(out@) =~= remove_key(mv.take(0), key@));
        while i < m.len()
            invariant
                mv == members_view(m@),
                0 <= i <= m@.len(),
                members_view(out@) == remove_key(mv.take(i as int), key@),
            decreases m@.len() - i,
        {
            assert(mv.take(i + 1).drop_last() =~= mv.take(i as int));
            if !str_eq(m[i].0.as_str(), key) {
                let ghost before = members_view(out@);
                out.push((m[i].0.clone(), m[i].1.duplicate()));
                assert(members_view(out@) =~= before.push(mv[i as int]));
            }
            i = i + 1;
        }
        assert(mv.take(m@.len() as int) =~= mv);
        out
    }

    /// Moves the provider's header fields out of the arguments (see `spec_split`).
    pub fn split_headers_from_args(&self, prov: &SseProvider, args: ToolArgs) -> (r: (Vec<(String, String)>, ToolArgs))
        ensures
            (headers_view(r.0@), members_view(r.1@)) == spec_split(header_fields_view(*prov), members_view(args@)),
    {
        let mut headers: Vec<(String, String)> = Vec::new();
        let mut rest = args;
        match &prov.header_fields {
            None => {
                assert(headers_view(headers@) =~= Seq::<(Seq<char>, Seq<char>)>::empty());
                (headers, rest)
            },
            Some(fields) => {
                let ghost fv = views(fields@);
                let ghost av = members_view(rest@);
                let mut i: usize = 0;
                assert(fv.take(0) =~= Seq::<Seq<char>>::empty());
                assert(headers_view(headers@) =~= Seq::<(Seq<char>, Seq<char>)>::empty());
                while i < fields.len()
                    invariant
                        fv == views(fields@),
                        0 <= i <= fields@.len(),
                        (headers_view(headers@), members_view(rest@)) == spec_split(fv.take(i as int), av),
                    decreases fields@.len() - i,
                {
                    assert(fv.take(i + 1).drop_last() =~= fv.take(i as int));
                    assert(fv.take(i + 1).last() == fields@[i as int]@);
                    let field = &fields[i];
                    match Self::find_member(&rest, field.as_str()) {
                        Some(j) => {
                            let hv = Self::value_to_header(&rest[j].1);
                            match hv {
                                Some(t) => push_header(&mut headers, field.as_str(), t.as_str()),
                                None => {},
                            }
                            rest = Self::without_key(&rest, field.as_str());
                        },
                        None => {},
                    }
                    i = i + 1;
                }
                assert(fv.take(fields@.len() as int) =~= fv);
                (headers, rest)
            },
        }
    }

    /// The headers of a request (see `spec_request_headers`).
    pub fn request_headers(&self, prov: &SseProvider, accept: Option<&str>, dynamic: &Vec<(String, String)>) -> (r: Vec<(String, String)>)
        ensures
            headers_view(r@) == spec_request_headers(*prov, match accept { Some(a) => Some(a@), None => None }, headers_view(dynamic@)),
    {
        let mut out: Vec<(String, String)> = Vec::new();
        let a = match accept {
            Some(a) => a,
            None => "application/json",
        };
        push_header(&mut out, "Accept", a);
        assert(headers_view(out@) =~= seq![("Accept"@, a@)]);
        append_opt_headers(&mut out, &prov.headers);
        append_headers(&mut out, dynamic);
        out
    }

    /// Where this transport's requests carry the credentials.
    pub fn apply_auth(&self, auth: &AuthConfig) -> (r: Result<CredentialPlacement, TransportError>)
        ensures
            r is Ok <==> http_auth_placeable(*auth),
            match r {
                Ok(p) => http_auth_ok(*auth, p),
                Err(e) => http_auth_err(*auth, "SSE"@, e),
            },
    {
        http_auth_placement(auth, "SSE")
    }

    /// The tools a discovery body lists, none when it lists none.
    pub fn parse_tools_from_body(&self, body: &str) -> (r: Vec<Tool>)
        ensures
            tool_views(r@) == manifest_text_tools_or_empty(body@),
    {
        match tools_from_manifest_text(body) {
            Some(ts) => ts,
            None => {
                let e: Vec<Tool> = Vec::new();
                assert(tool_views(e@) =~= Seq::<ToolView>::empty());
                e
            },
        }
    }

    /// The headers of the discovery request: `Accept` for JSON set once
    /// before and once by the shared header rule, then the provider's.
    pub fn discovery_headers(&self, prov: &SseProvider) -> (r: Vec<(String, String)>)
        ensures
            headers_view(r@) == seq![("Accept"@, "application/json"@)] + spec_request_headers(*prov, None, seq![]),
    {
        let mut out: Vec<(String, String)> = Vec::new();
        push_header(&mut out, "Accept", "application/json");
        let none: Vec<(String, String)> = Vec::new();
        assert(headers_view(none@) =~= Seq::<(Seq<char>, Seq<char>)>::empty());
        let rest = self.request_headers(prov, None, &none);
        append_headers(&mut out, &rest);
        assert(headers_view(out@) =~= seq![("Accept"@, "application/json"@)] + spec_request_headers(*prov, None, seq![]));
        out
    }

    /// The refusal of a discovery request answered with a failure status.
    pub fn discovery_failed(prov: &SseProvider, status: &str) -> (r: TransportError)
        ensures
            r.kind == ErrorKind::RequestFailed,
            r.message@ == "Failed to fetch tools from "@ + prov.url@ + ": "@ + status@,
    {
        let head = crate::chars::concat3("Failed to fetch tools from ", prov.url.as_str(), ": ");
        status_error(head.as_str(), status)
    }

    /// The refusal of a call answered with a failure status.
    pub fn call_failed(status: &str) -> (r: TransportError)
        ensures
            r.kind == ErrorKind::RequestFailed,
            r.message@ == "SSE request failed: "@ + status@,
    {
        status_error("SSE request failed: ", status)
    }

    /// Everything a call of `tool_name` with `args` takes: the tool's URL
    /// under the provider's, the `Content-Type` header, then the request
    /// headers with `text/event-stream` accepted and the header fields
    /// moved out of the arguments, and the body built from the rest.
    pub fn call_plan(&self, prov: &SseProvider, tool_name: &str, args: ToolArgs) -> (r: SseCallPlan)
        ensures
            ({
                let (moved, rest) = spec_split(header_fields_view(*prov), members_view(args@));
                &&& r.url@ == spec_tool_url(prov.url@, spec_call_name(tool_name@, prov.base.name@))
                &&& headers_view(r.headers@) == seq![("Content-Type"@, "application/json"@)]
                    + spec_request_headers(*prov, Some("text/event-stream"@), moved)
                &&& r.payload@ == spec_payload(prov.body_field, rest)
            }),
    {
        let name = call_name(tool_name, prov.base.name.as_str());
        let url = tool_url(prov.url.as_str(), name.as_str());
        let (moved, rest) = self.split_headers_from_args(prov, args);
        let payload = self.build_payload(prov, rest);
        let mut headers: Vec<(String, String)> = Vec::new();
        push_header(&mut headers, "Content-Type", "application/json");
        let more = self.request_headers(prov, Some("text/event-stream"), &moved);
        append_headers(&mut headers, &more);
        assert(headers_view(headers@) =~= seq![("Content-Type"@, "application/json"@)] + headers_view(more@));
        SseCallPlan { url, headers, payload }
    }
}

} // verus!
