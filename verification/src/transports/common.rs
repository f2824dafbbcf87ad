use vstd::prelude::*;
use crate::chars::{
    concat2, concat3, owned, strip_prefix_or_keep, strip_prefix_or_self, trim_end_char,
    trim_end_matches_char,
};
use crate::error::{ErrorKind, TransportError};
use crate::json::{
    members_view, render_json, spec_parse_json_bytes, spec_render_json, JsonValue, JsonView,
};
use crate::chars::{decimal, u64_to_decimal};

verus! {

/// Arguments of a tool call: named JSON values, in the order given.
pub type ToolArgs = Vec<(String, JsonValue)>;

/// The name a tool is called by at its provider: the tool name without a
/// leading `<provider>.`.
pub open spec fn spec_call_name(tool: Seq<char>, provider: Seq<char>) -> Seq<char> {
    strip_prefix_or_self(tool, provider + "."@)
}

/// The tool name without the `<provider>.` prefix, if it has one.
pub fn call_name(tool_name: &str, provider_name: &str) -> (r: String)
    ensures
        r@ == spec_call_name(tool_name@, provider_name@),
{
    let prefix = concat2(provider_name, ".");
    strip_prefix_or_keep(tool_name, prefix.as_str())
}

/// A tool name qualified with its provider's name, `<provider>.<tool>`, is
/// called by the bare tool name.
pub proof fn law_qualified_name_is_stripped(provider: Seq<char>, tool: Seq<char>)
    ensures
        spec_call_name(provider + "."@ + tool, provider) == tool,
{
    let p = provider + "."@;
    let q = provider + "."@ + tool;
    assert(q.take(p.len() as int) =~= p);
    assert(q.skip(p.len() as int) =~= tool);
}

/// The URL of a tool under a base URL: the base without trailing slashes,
/// a slash, and the tool's name.
pub open spec fn spec_tool_url(base: Seq<char>, name: Seq<char>) -> Seq<char> {
    trim_end_char(base, '/') + "/"@ + name
}

/// A trailing slash on the base URL does not change a tool's URL.
pub proof fn law_tool_url_ignores_trailing_slash(base: Seq<char>, name: Seq<char>)
    ensures
        spec_tool_url(base.push('/'), name) == spec_tool_url(base, name),
{
    assert(base.push('/').drop_last() =~= base);
}

/// The URL of tool `name` under `base`.
pub fn tool_url(base: &str, name: &str) -> (r: String)
    ensures
        r@ == spec_tool_url(base@, name@),
{
    let b = trim_end_matches_char(&crate::chars::chars_of(base), '/');
    let bs = crate::chars::string_from_chars(b.as_slice());
    concat3(bs.as_str(), "/", name)
}

/// An error for a reply with a failure status, `<prefix><status>`.
pub fn status_error(prefix: &str, status: &str) -> (r: TransportError)
    ensures
        r.kind == ErrorKind::RequestFailed,
        r.message@ == prefix@ + status@,
{
    TransportError::with_message(ErrorKind::RequestFailed, concat2(prefix, status))
}

/// An error whose message is `<prefix><detail>`.
pub fn error_with(kind: ErrorKind, prefix: &str, detail: &str) -> (r: TransportError)
    ensures
        r.kind == kind,
        r.message@ == prefix@ + detail@,
{
    TransportError::with_message(kind, concat2(prefix, detail))
}

/// The refusal a transport gives to a provider of another protocol.
pub fn wrong_provider(expected: &str) -> (r: TransportError)
    ensures
        r.kind == ErrorKind::WrongProvider,
        r.message@ == "Provider is not "@ + expected@,
{
    error_with(ErrorKind::WrongProvider, "Provider is not ", expected)
}

/// A copy of a list of arguments.
pub fn copy_args(args: &ToolArgs) -> (r: ToolArgs)
    ensures
        members_view(r@) == members_view(args@),
{
    let mut out: ToolArgs = Vec::new();
    let mut i: usize = 0;
    while i < args.len()
        invariant
            0 <= i <= args@.len(),
            out@.len() == i,
            forall|j: int|
                0 <= j < i ==> #[trigger] out@[j].0@ == args@[j].0@ && out@[j].1@ == args@[j].1@,
        decreases args@.len() - i,
    {
        out.push((args[i].0.clone(), args[i].1.duplicate()));
        i = i + 1;
    }
    assert(members_view(out@) =~= members_view(args@));
    out
}

/// The arguments as a JSON object.
pub fn args_object(args: &ToolArgs) -> (r: JsonValue)
    ensures
        r@ == JsonView::Object(members_view(args@)),
{
    let r = JsonValue::Object(copy_args(args));
    proof {
        r.lemma_object_view();
    }
    r
}

/// The object `{k1: v1, k2: v2}`.
pub fn object2(k1: &str, v1: JsonValue, k2: &str, v2: JsonValue) -> (r: JsonValue)
    ensures
        r@ == JsonView::Object(seq![(k1@, v1@), (k2@, v2@)]),
{
    let mut m: Vec<(String, JsonValue)> = Vec::new();
    m.push((owned(k1), v1));
    m.push((owned(k2), v2));
    let r = JsonValue::Object(m);
    proof {
        r.lemma_object_view();
        assert(members_view(m@) =~= seq![(k1@, v1@), (k2@, v2@)]);
    }
    r
}

/// The object `{k1: v1}`.
pub fn object1(k1: &str, v1: JsonValue) -> (r: JsonValue)
    ensures
        r@ == JsonView::Object(seq![(k1@, v1@)]),
{
    let mut m: Vec<(String, JsonValue)> = Vec::new();
    m.push((owned(k1), v1));
    let r = JsonValue::Object(m);
    proof {
        r.lemma_object_view();
        assert(members_view(m@) =~= seq![(k1@, v1@)]);
    }
    r
}

/// The object `{k1: v1, k2: v2, k3: v3}`.
pub fn object3(k1: &str, v1: JsonValue, k2: &str, v2: JsonValue, k3: &str, v3: JsonValue) -> (r: JsonValue)
    ensures
        r@ == JsonView::Object(seq![(k1@, v1@), (k2@, v2@), (k3@, v3@)]),
{
    let mut m: Vec<(String, JsonValue)> = Vec::new();
    m.push((owned(k1), v1));
    m.push((owned(k2), v2));
    m.push((owned(k3), v3));
    let r = JsonValue::Object(m);
    proof {
        r.lemma_object_view();
        assert(members_view(m@) =~= seq![(k1@, v1@), (k2@, v2@), (k3@, v3@)]);
    }
    r
}

/// The object `{k1: v1, k2: v2, k3: v3, k4: v4}`.
pub fn object4(k1: &str, v1: JsonValue, k2: &str, v2: JsonValue, k3: &str, v3: JsonValue, k4: &str, v4: JsonValue) -> (r: JsonValue)
    ensures
        r@ == JsonView::Object(seq![(k1@, v1@), (k2@, v2@), (k3@, v3@), (k4@, v4@)]),
{
    let mut m: Vec<(String, JsonValue)> = Vec::new();
    m.push((owned(k1), v1));
    m.push((owned(k2), v2));
    m.push((owned(k3), v3));
    m.push((owned(k4), v4));
    let r = JsonValue::Object(m);
    proof {
        r.lemma_object_view();
        assert(members_view(m@) =~= seq![(k1@, v1@), (k2@, v2@), (k3@, v3@), (k4@, v4@)]);
    }
    r
}

/// `{"tool": <name>, "args": <args>}`, the request the socket transports send.
pub open spec fn socket_request_view(tool: Seq<char>, args: Seq<(String, JsonValue)>) -> JsonView {
    JsonView::Object(
        seq![("tool"@, JsonView::Str(tool)), ("args"@, JsonView::Object(members_view(args)))],
    )
}

/// The request `{"tool": tool_name, "args": args}`.
pub fn socket_request(tool_name: &str, args: &ToolArgs) -> (r: JsonValue)
    ensures
        r@ == socket_request_view(tool_name@, args@),
{
    object2("tool", JsonValue::from_str(tool_name), "args", args_object(args))
}

/// The JSON value a reply text stands for: the document it parses to, or
/// else the text itself as a string.
pub open spec fn json_or_text(text: Seq<char>) -> JsonView {
    match crate::json::spec_parse_json(text) {
        Ok(v) => v,
        Err(_) => JsonView::Str(text),
    }
}

/// The document in `text`, or the text itself as a JSON string.
pub fn parse_or_string(text: &str) -> (r: JsonValue)
    ensures
        r@ == json_or_text(text@),
{
    match crate::json::parse_json(text) {
        Ok(v) => v,
        Err(_) => JsonValue::from_str(text),
    }
}

/// The views of a list of headers.
pub open spec fn headers_view(h: Seq<(String, String)>) -> Seq<(Seq<char>, Seq<char>)> {
    crate::chars::pair_views(h)
}

/// The provider's headers, none when it has none.
pub open spec fn opt_headers_view(h: Option<Vec<(String, String)>>) -> Seq<(Seq<char>, Seq<char>)> {
    match h {
        Some(v) => headers_view(v@),
        None => seq![],
    }
}

/// Appends a copy of `extra` to `out`.
pub fn append_headers(out: &mut Vec<(String, String)>, extra: &Vec<(String, String)>)
    ensures
        headers_view(final(out)@) == headers_view(old(out)@) + headers_view(extra@),
{
    let ghost start = headers_view(out@);
    let mut i: usize = 0;
    while i < extra.len()
        invariant
            0 <= i <= extra@.len(),
            headers_view(out@) == start + headers_view(extra@.take(i as int)),
        decreases extra@.len() - i,
    {
        let ghost before = headers_view(out@);
        out.push((extra[i].0.clone(), extra[i].1.clone()));
        assert(headers_view(out@) =~= before.push((extra@[i as int].0@, extra@[i as int].1@)));
        assert(headers_view(extra@.take(i + 1)) =~= headers_view(extra@.take(i as int)).push(
            (extra@[i as int].0@, extra@[i as int].1@),
        ));
        i = i + 1;
    }
    assert(extra@.take(extra@.len() as int) =~= extra@);
}

/// Appends one header.
pub fn push_header(out: &mut Vec<(String, String)>, name: &str, value: &str)
    ensures
        headers_view(final(out)@) == headers_view(old(out)@).push((name@, value@)),
{
    let ghost before = headers_view(out@);
    out.push((owned(name), owned(value)));
    assert(headers_view(out@) =~= before.push((name@, value@)));
}

/// Appends the provider's headers, if any.
pub fn append_opt_headers(out: &mut Vec<(String, String)>, extra: &Option<Vec<(String, String)>>)
    ensures
        headers_view(final(out)@) == headers_view(old(out)@) + opt_headers_view(*extra),
{
    match extra {
        Some(h) => append_headers(out, h),
        None => {
            assert(headers_view(out@) + Seq::<(Seq<char>, Seq<char>)>::empty() =~= headers_view(
                out@,
            ));
        },
    }
}

/// What a stream yields for one incoming message: the items to hand on,
/// in order, and whether the stream ends after them.
#[derive(Debug, PartialEq)]
pub struct StreamStep {
    pub items: Vec<Result<JsonValue, TransportError>>,
    pub finished: bool,
}

/// The model of one stream item: a value, or an error's message.
pub open spec fn item_view(r: Result<JsonValue, TransportError>) -> Result<JsonView, Seq<char>> {
    match r {
        Ok(v) => Ok(v@),
        Err(e) => Err(e.message@),
    }
}

/// The models of stream items.
pub open spec fn items_view(s: Seq<Result<JsonValue, TransportError>>) -> Seq<Result<JsonView, Seq<char>>> {
    s.map_values(|r: Result<JsonValue, TransportError>| item_view(r))
}

impl StreamStep {
    /// The items and the end flag as a model.
    pub open spec fn view(&self) -> (Seq<Result<JsonView, Seq<char>>>, bool) {
        (items_view(self.items@), self.finished)
    }

    /// A step handing on nothing.
    pub fn empty(finished: bool) -> (r: StreamStep)
        ensures
            r.view() == (Seq::<Result<JsonView, Seq<char>>>::empty(), finished),
    {
        let items: Vec<Result<JsonValue, TransportError>> = Vec::new();
        assert(items_view(items@) =~= Seq::<Result<JsonView, Seq<char>>>::empty());
        StreamStep { items, finished }
    }

    /// A step handing on one item.
    pub fn one(item: Result<JsonValue, TransportError>, finished: bool) -> (r: StreamStep)
        ensures
            r.view() == (seq![item_view(item)], finished),
    {
        let ghost iv = item_view(item);
        let mut items: Vec<Result<JsonValue, TransportError>> = Vec::new();
        items.push(item);
        assert(items_view(items@) =~= seq![iv]);
        StreamStep { items, finished }
    }
}

/// What draining a stream into one array gives: the first error, if any
/// item is one, and else the array of all values.
pub open spec fn collected(items: Seq<Result<JsonView, Seq<char>>>) -> Result<JsonView, Seq<char>>
    decreases items.len(),
{
    if items.len() == 0 {
        Ok(JsonView::Array(seq![]))
    } else {
        match collected(items.drop_last()) {
            Err(m) => Err(m),
            Ok(JsonView::Array(vs)) => match items.last() {
                Ok(v) => Ok(JsonView::Array(vs.push(v))),
                Err(m) => Err(m),
            },
            Ok(other) => Ok(other),
        }
    }
}

/// Draining a stream that hands on only values gives the array of those
/// values, in order.
pub proof fn law_collect_values(vals: Seq<JsonView>)
    ensures
        collected(vals.map_values(|v: JsonView| Ok::<JsonView, Seq<char>>(v))) == Ok::<JsonView, Seq<char>>(JsonView::Array(vals)),
    decreases vals.len(),
{
    let items = vals.map_values(|v: JsonView| Ok::<JsonView, Seq<char>>(v));
    if vals.len() == 0 {
        assert(vals =~= Seq::<JsonView>::empty());
    } else {
        law_collect_values(vals.drop_last());
        assert(items.drop_last() =~= vals.drop_last().map_values(|v: JsonView| Ok::<JsonView, Seq<char>>(v)));
        assert(vals.drop_last().push(vals.last()) =~= vals);
    }
}

/// Drains stream items into one array, stopping at the first error.
pub fn collect_items(items: Vec<Result<JsonValue, TransportError>>) -> (r: Result<JsonValue, TransportError>)
    ensures
        item_view(r) == collected(items_view(items@)),
{
    let ghost iv = items_view(items@);
    let mut values: Vec<JsonValue> = Vec::new();
    let mut i: usize = 0;
    assert(iv.take(0) =~= Seq::<Result<JsonView, Seq<char>>>::empty());
    assert(crate::json::items_view(values@) =~= Seq::<JsonView>::empty());
    while i < items.len()
        invariant
            iv == items_view(items@),
            0 <= i <= items@.len(),
            collected(iv.take(i as int)) == Ok::<JsonView, Seq<char>>(JsonView::Array(crate::json::items_view(values@))),
        decreases items@.len() - i,
    {
        assert(iv.take(i + 1).drop_last() =~= iv.take(i as int));
        assert(iv.take(i + 1).last() == item_view(items@[i as int]));
        match &items[i] {
            Ok(v) => {
                let ghost before = crate::json::items_view(values@);
                values.push(v.duplicate());
                assert(crate::json::items_view(values@) =~= before.push(v@));
            },
            Err(e) => {
                proof {
                    lemma_collected_err(iv, i as int + 1);
                }
                return Err(e.duplicate());
            },
        }
        i = i + 1;
    }
    assert(iv.take(items@.len() as int) =~= iv);
    let r = JsonValue::Array(values);
    proof {
        r.lemma_object_view();
    }
    Ok(r)
}

proof fn lemma_collected_err(items: Seq<Result<JsonView, Seq<char>>>, k: int)
    requires
        0 <= k <= items.len(),
        collected(items.take(k)) is Err,
    ensures
        collected(items) == collected(items.take(k)),
    decreases items.len() - k,
{
    if k < items.len() {
        assert(items.take(k + 1).drop_last() =~= items.take(k));
        lemma_collected_err(items, k + 1);
    } else {
        assert(items.take(k) =~= items);
    }
}

/// `host:port`.
pub open spec fn spec_address(host: Seq<char>, port: u16) -> Seq<char> {
    host + ":"@ + decimal(port as nat)
}

/// The address `host:port` of a socket provider.
pub fn socket_address(host: &str, port: u16) -> (r: String)
    ensures
        r@ == spec_address(host@, port),
{
    let p = u64_to_decimal(port as u64);
    concat3(host, ":", p.as_str())
}

/// The bytes of the request `{"tool": ..., "args": ...}` as JSON text.
pub open spec fn spec_request_bytes(tool: Seq<char>, args: Seq<(String, JsonValue)>) -> Seq<u8> {
    vstd::utf8::encode_utf8(spec_render_json(socket_request_view(tool, args)))
}

/// The request for `tool_name` with `args`, as the bytes of its JSON text.
pub fn request_bytes(tool_name: &str, args: &ToolArgs) -> (r: Vec<u8>)
    ensures
        r@ == spec_request_bytes(tool_name@, args@),
{
    let req = socket_request(tool_name, args);
    let text = render_json(&req);
    text.as_str().as_bytes_vec()
}

/// A reply as JSON, or the parser's error.
pub fn parse_reply(bytes: &[u8]) -> (r: Result<JsonValue, TransportError>)
    ensures
        item_view(r) == spec_parse_json_bytes(bytes@),
        r matches Err(e) ==> e.kind == ErrorKind::Parse,
{
    match crate::json::parse_json_bytes(bytes) {
        Ok(v) => Ok(v),
        Err(e) => Err(TransportError::with_message(ErrorKind::Parse, e)),
    }
}

} // verus!
