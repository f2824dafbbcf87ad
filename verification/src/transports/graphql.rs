use vstd::prelude::*;
use crate::auth::{
    basic_credentials, basic_header_value, http_auth_err, http_auth_ok, http_auth_placeable,
    http_auth_placement, AuthConfig, CredentialPlacement,
};
use crate::chars::{
    ascii_lower_seq, concat2, concat3, concat4, contains_seq, has_prefix, has_suffix, join,
    lemma_contains_middle, lemma_join_has_part,
    join_strings, owned, replace_all, replace_str, spec_unicode_lowercase, split_char,
    split_on_char, str_contains, str_ends_with, str_eq, str_starts_with, to_ascii_lower, trim,
    trim_str, unicode_lowercase, views,
};
use crate::error::{ErrorKind, TransportError};
use crate::json::{
    members_view, render_json, spec_parse_json, spec_render_json, JsonNumber, JsonValue, JsonView,
    NumberView,
};
use crate::providers::GraphqlProvider;
use crate::tools::{plain_tool, plain_tool_view, tool_views, Tool, ToolView};
use crate::transports::common::{
    append_opt_headers, call_name, error_with, headers_view, item_view, items_view, object1,
    object2, opt_headers_view, push_header, spec_call_name, status_error, StreamStep, ToolArgs,
};

verus! {

/// Maps GraphQL operations to tools: queries and mutations over HTTP,
/// subscriptions over a `graphql-transport-ws` WebSocket.
pub struct GraphQLTransport;

/// A GraphQL operation ready to send: its kind, its text and its variables.
#[derive(Debug, PartialEq)]
pub struct GraphqlOperation {
    pub operation_type: String,
    pub query: String,
    pub variables: ToolArgs,
}

/// What opening a subscription takes: the WebSocket URL, the `Host`
/// header, the extra headers in the order they are set, and the two
/// protocol messages to send.
#[derive(Debug, PartialEq)]
pub struct SubscriptionPlan {
    pub url: String,
    pub host: String,
    pub headers: Vec<(String, String)>,
    pub init_message: JsonValue,
    pub subscribe_message: JsonValue,
}

// ---------------------------------------------------------------------------
// Operation kinds and argument types
// ---------------------------------------------------------------------------

/// The operation kind: the configured kind when it names one (ignoring case
/// and surrounding whitespace); otherwise `subscription` for tool names
/// beginning with subscription, subscribe or on_, `mutation` for those
/// beginning with mutation, create, update or delete (ignoring case), and
/// `query` for all others.
pub open spec fn spec_infer_operation(operation_type: Seq<char>, tool_name: Seq<char>) -> Seq<char> {
    let op = spec_unicode_lowercase(trim(operation_type));
    if op == "query"@ || op == "mutation"@ || op == "subscription"@ {
        op
    } else {
        let tool = spec_unicode_lowercase(tool_name);
        if has_prefix(tool, "subscription"@) || has_prefix(tool, "subscribe"@) || has_prefix(
            tool,
            "on_"@,
        ) {
            "subscription"@
        } else if has_prefix(tool, "mutation"@) || has_prefix(tool, "create"@) || has_prefix(
            tool,
            "update"@,
        ) || has_prefix(tool, "delete"@) {
            "mutation"@
        } else {
            "query"@
        }
    }
}

/// Whether a number is an integer within the range of `i32`.
pub open spec fn fits_i32(n: NumberView) -> bool {
    match n {
        NumberView::PosInt(u) => u <= i32::MAX,
        NumberView::NegInt(i) => i32::MIN <= i && i <= i32::MAX,
        NumberView::Float(_) => false,
    }
}

/// The GraphQL type declared for an argument, and the value sent for it:
/// `Boolean!` for booleans, `Int!` for integers within `i32`, `Float!` for
/// other numbers, `ID!` for strings whose name ends in `_id` (ignoring ASCII
/// case), `String!` for other strings, `String!` with the JSON text for
/// arrays and objects, and `String` for null.
pub open spec fn spec_normalize(key: Seq<char>, v: JsonView) -> (Seq<char>, JsonView) {
    match v {
        JsonView::Bool(_) => ("Boolean!"@, v),
        JsonView::Number(n) => (
            if fits_i32(n) {
                "Int!"@
            } else {
                "Float!"@
            },
            v,
        ),
        JsonView::Str(_) => (
            if has_suffix(ascii_lower_seq(key), "_id"@) {
                "ID!"@
            } else {
                "String!"@
            },
            v,
        ),
        JsonView::Array(_) => ("String!"@, JsonView::Str(spec_render_json(v))),
        JsonView::Object(_) => ("String!"@, JsonView::Str(spec_render_json(v))),
        JsonView::Null => ("String"@, JsonView::Null),
    }
}

/// The variable declarations `$key: Type` of the arguments.
pub open spec fn spec_arg_defs(args: Seq<(Seq<char>, JsonView)>) -> Seq<Seq<char>> {
    Seq::new(args.len(), |i: int| "$"@ + args[i].0 + ": "@ + spec_normalize(args[i].0, args[i].1).0)
}

/// The argument uses `key: $key`.
pub open spec fn spec_arg_uses(args: Seq<(Seq<char>, JsonView)>) -> Seq<Seq<char>> {
    Seq::new(args.len(), |i: int| args[i].0 + ": $"@ + args[i].0)
}

/// The variables sent with the operation.
pub open spec fn spec_variables(args: Seq<(Seq<char>, JsonView)>) -> Seq<(Seq<char>, JsonView)> {
    Seq::new(args.len(), |i: int| (args[i].0, spec_normalize(args[i].0, args[i].1).1))
}

/// The operation text: `<op> <name>(<defs>) { <field>(<uses>) }`, or
/// `<op> { <field> }` without arguments.
pub open spec fn spec_operation_text(
    op: Seq<char>,
    name: Seq<char>,
    field: Seq<char>,
    args: Seq<(Seq<char>, JsonView)>,
) -> Seq<char> {
    if args.len() > 0 {
        op + " "@ + name + "("@ + join(spec_arg_defs(args), ", "@) + ") { "@ + field + "("@ + join(
            spec_arg_uses(args),
            ", "@,
        ) + ") }"@
    } else {
        op + " { "@ + field + " }"@
    }
}

/// The operation name: the configured one, or the field called.
pub open spec fn spec_operation_name(prov: GraphqlProvider, field: Seq<char>) -> Seq<char> {
    match prov.operation_name {
        Some(n) => n@,
        None => field,
    }
}

/// The operation for calling `tool` with `args` on `prov`.
pub open spec fn spec_operation(prov: GraphqlProvider, tool: Seq<char>, args: Seq<(Seq<char>, JsonView)>) -> (Seq<char>, Seq<char>, Seq<(Seq<char>, JsonView)>) {
    let field = spec_call_name(tool, prov.base.name@);
    let op = spec_infer_operation(prov.operation_type@, field);
    (
        op,
        spec_operation_text(op, spec_operation_name(prov, field), field, args),
        spec_variables(args),
    )
}

/// Every argument of a call is declared as a variable `$key: ...` and
/// passed to the field as `key: $key`, and the variables sent carry the
/// arguments' names in order.
pub proof fn law_operation_passes_declared_variables(
    prov: GraphqlProvider,
    tool: Seq<char>,
    args: Seq<(Seq<char>, JsonView)>,
    i: int,
)
    requires
        0 <= i < args.len(),
    ensures
        contains_seq(spec_operation(prov, tool, args).1, args[i].0 + ": $"@ + args[i].0),
        contains_seq(spec_operation(prov, tool, args).1, "$"@ + args[i].0 + ": "@),
        spec_operation(prov, tool, args).2.len() == args.len(),
        spec_operation(prov, tool, args).2[i].0 == args[i].0,
{
    let field = spec_call_name(tool, prov.base.name@);
    let op = spec_infer_operation(prov.operation_type@, field);
    let name = spec_operation_name(prov, field);
    let defs = spec_arg_defs(args);
    let uses = spec_arg_uses(args);
    let j1 = join(defs, ", "@);
    let j2 = join(uses, ", "@);
    let a1 = op + " "@ + name + "("@;
    let b1 = ") { "@ + field + "("@ + j2 + ") }"@;
    let text = spec_operation_text(op, name, field, args);
    assert(text =~= a1 + j1 + b1);
    let a2 = a1 + j1 + ") { "@ + field + "("@;
    assert(text =~= a2 + j2 + ") }"@);
    let (p2, q2) = lemma_join_has_part(uses, ", "@, i);
    let u = args[i].0 + ": $"@ + args[i].0;
    assert(uses[i] == u);
    assert(text =~= (a2 + p2) + u + (q2 + ") }"@));
    lemma_contains_middle(a2 + p2, u, q2 + ") }"@);
    let (p1, q1) = lemma_join_has_part(defs, ", "@, i);
    let d = "$"@ + args[i].0 + ": "@;
    let ty = spec_normalize(args[i].0, args[i].1).0;
    assert(defs[i] == d + ty);
    assert(text =~= (a1 + p1) + d + (ty + q1 + b1));
    lemma_contains_middle(a1 + p1, d, ty + q1 + b1);
}

impl GraphqlOperation {
    pub open spec fn view(&self) -> (Seq<char>, Seq<char>, Seq<(Seq<char>, JsonView)>) {
        (self.operation_type@, self.query@, members_view(self.variables@))
    }
}

// ---------------------------------------------------------------------------
// Subscription messages
// ---------------------------------------------------------------------------

/// The WebSocket URL of the endpoint: `http://` becomes `ws://` and
/// `https://` becomes `wss://`, and an API key sent in the query is appended
/// as `name=key` after `?` (or `&` when the URL already has a query).
pub open spec fn spec_ws_url(url: Seq<char>, auth: Option<AuthConfig>) -> Seq<char> {
    let u = replace_all(replace_all(url, "http://"@, "ws://"@), "https://"@, "wss://"@);
    match auth {
        Some(AuthConfig::ApiKey(k)) => if ascii_lower_seq(k.location@) == "query"@ {
            u + (if contains_seq(u, "?"@) {
                "&"@
            } else {
                "?"@
            }) + k.var_name@ + "="@ + k.api_key@
        } else {
            u
        },
        _ => u,
    }
}

/// The `Host` header: the third `/`-separated piece of the URL, or `localhost`.
pub open spec fn spec_ws_host(url: Seq<char>) -> Seq<char> {
    let parts = split_char(url, '/');
    if parts.len() > 2 {
        parts[2]
    } else {
        "localhost"@
    }
}

/// The credential headers of a subscription request, or the refusal.
pub open spec fn spec_ws_auth_headers(auth: Option<AuthConfig>) -> Result<Seq<(Seq<char>, Seq<char>)>, Seq<char>> {
    match auth {
        None => Ok(seq![]),
        Some(AuthConfig::ApiKey(k)) => {
            let loc = ascii_lower_seq(k.location@);
            if loc == "header"@ {
                Ok(seq![(k.var_name@, k.api_key@)])
            } else if loc == "cookie"@ {
                Ok(seq![("cookie"@, k.var_name@ + "="@ + k.api_key@)])
            } else if loc == "query"@ {
                Ok(seq![])
            } else {
                Err("Unsupported API key location for WebSocket: "@ + loc)
            }
        },
        Some(AuthConfig::Basic(b)) => Ok(
            seq![("authorization"@, basic_credentials(b.username@, b.password@))],
        ),
        Some(AuthConfig::OAuth2(_)) => Err(
            "OAuth2 is not supported for GraphQL WebSocket subscriptions"@,
        ),
    }
}

/// The message `{"id": "1", "type": "subscribe", "payload": {"query": q, "variables": vars}}`.
pub open spec fn spec_subscribe_message(query: Seq<char>, vars: Seq<(Seq<char>, JsonView)>) -> JsonView {
    JsonView::Object(
        seq![
            ("id"@, JsonView::Str("1"@)),
            ("type"@, JsonView::Str("subscribe"@)),
            (
                "payload"@,
                JsonView::Object(
                    seq![("query"@, JsonView::Str(query)), ("variables"@, JsonView::Object(vars))],
                ),
            ),
        ],
    )
}

/// What an incoming subscription message hands on, and whether the
/// subscription ends with it.
pub open spec fn spec_subscription_step(text: Seq<char>) -> (Seq<Result<JsonView, Seq<char>>>, bool) {
    match spec_parse_json(text) {
        Err(e) => (seq![Err("Failed to parse WebSocket message: "@ + e)], true),
        Ok(msg) => {
            let ty = msg.get_str("type"@);
            if ty == Some("next"@) {
                match msg.get("payload"@) {
                    None => (seq![], false),
                    Some(p) => {
                        let data: Seq<Result<JsonView, Seq<char>>> = match p.get("data"@) {
                            Some(d) => seq![Ok(d)],
                            None => seq![],
                        };
                        match p.get("errors"@) {
                            Some(errs) => (
                                data.push(
                                    Err("GraphQL subscription error: "@ + spec_render_json(errs)),
                                ),
                                true,
                            ),
                            None => (data, false),
                        }
                    },
                }
            } else if ty == Some("error"@) {
                (
                    seq![
                        Err(
                            "GraphQL subscription error: "@ + match msg.get("payload"@) {
                                Some(p) => spec_render_json(p),
                                None => "Unknown error"@,
                            },
                        ),
                    ],
                    true,
                )
            } else if ty == Some("complete"@) {
                (seq![], true)
            } else {
                (seq![], false)
            }
        },
    }
}

/// What the reply to `connection_init` must be: JSON whose `type` is `connection_ack`.
pub open spec fn spec_ack_check(text: Seq<char>) -> Result<(), Seq<char>> {
    match spec_parse_json(text) {
        Err(e) => Err(e),
        Ok(ack) => if ack.get_str("type"@) == Some("connection_ack"@) {
            Ok(())
        } else {
            Err("Expected connection_ack, got: "@ + text)
        },
    }
}

// ---------------------------------------------------------------------------
// Query responses and introspection
// ---------------------------------------------------------------------------

/// What a query response yields: an error when it has `errors`, else its
/// `data`, else an error for the missing data.
pub open spec fn spec_query_result(response: JsonView) -> Result<JsonView, Seq<char>> {
    match response.get("errors"@) {
        Some(errs) => Err("GraphQL errors: "@ + spec_render_json(errs)),
        None => match response.get("data"@) {
            Some(d) => Ok(d),
            None => Err("No data in GraphQL response"@),
        },
    }
}

/// The description of an introspected field, empty when it has none.
pub open spec fn field_description(field: JsonView) -> Seq<char> {
    match field.get_str("description"@) {
        Some(d) => d,
        None => seq![],
    }
}

/// The tools for a list of introspected fields: one per field with a string
/// name, tagged with the operation kind.
pub open spec fn field_tools(fields: Seq<JsonView>, op: Seq<char>) -> Seq<ToolView>
    decreases fields.len(),
{
    if fields.len() == 0 {
        seq![]
    } else {
        let prefix = field_tools(fields.drop_last(), op);
        match fields.last().get_str("name"@) {
            Some(n) => prefix.push(plain_tool_view(n, field_description(fields.last()), seq![op])),
            None => prefix,
        }
    }
}

/// The tools for one root type (`queryType`, ...) of an introspected schema.
pub open spec fn root_type_tools(schema: JsonView, key: Seq<char>, op: Seq<char>) -> Seq<ToolView> {
    match schema.get(key) {
        Some(t) => match t.get_array("fields"@) {
            Some(fs) => field_tools(fs, op),
            None => seq![],
        },
        None => seq![],
    }
}

/// The tools an introspection answer lists: the query fields, then the
/// mutation fields, then the subscription fields.
pub open spec fn introspection_tools(data: JsonView) -> Seq<ToolView> {
    match data.get("__schema"@) {
        Some(s) => root_type_tools(s, "queryType"@, "query"@) + root_type_tools(
            s,
            "mutationType"@,
            "mutation"@,
        ) + root_type_tools(s, "subscriptionType"@, "subscription"@),
        None => seq![],
    }
}

/// The fields listed under a root type (`queryType`, ...) of a schema.
pub open spec fn root_fields(schema: JsonView, key: Seq<char>) -> Seq<JsonView> {
    match schema.get(key) {
        Some(t) => match t.get_array("fields"@) {
            Some(fs) => fs,
            None => seq![],
        },
        None => seq![],
    }
}

/// How many fields of a list have a string name.
pub open spec fn named_count(fields: Seq<JsonView>) -> nat
    decreases fields.len(),
{
    if fields.len() == 0 {
        0
    } else {
        named_count(fields.drop_last()) + if fields.last().get_str("name"@) is Some {
            1nat
        } else {
            0nat
        }
    }
}

/// Whether a tool named `name` and tagged with just `op` is among `tools`.
pub open spec fn lists_tool(tools: Seq<ToolView>, name: Seq<char>, op: Seq<char>) -> bool {
    exists|k: int| 0 <= k < tools.len() && (#[trigger] tools[k]).name == name && tools[k].tags == seq![op]
}

/// The tools of a field list: as many as it has named fields, each tagged
/// with `op`, and one for every named field.
proof fn lemma_field_tools(fs: Seq<JsonView>, op: Seq<char>)
    ensures
        field_tools(fs, op).len() == named_count(fs),
        forall|k: int| 0 <= k < field_tools(fs, op).len() ==> (#[trigger] field_tools(fs, op)[k]).tags == seq![op],
        forall|j: int| 0 <= j < fs.len() && (#[trigger] fs[j]).get_str("name"@) is Some
            ==> lists_tool(field_tools(fs, op), fs[j].get_str("name"@)->Some_0, op),
    decreases fs.len(),
{
    if fs.len() > 0 {
        let prefix = field_tools(fs.drop_last(), op);
        lemma_field_tools(fs.drop_last(), op);
        let all = field_tools(fs, op);
        assert forall|k: int| 0 <= k < all.len() implies (#[trigger] all[k]).tags == seq![op] by {
            if k < prefix.len() {
                assert(all[k] == prefix[k]);
            }
        }
        assert forall|j: int| 0 <= j < fs.len() && (#[trigger] fs[j]).get_str("name"@) is Some
            implies lists_tool(all, fs[j].get_str("name"@)->Some_0, op) by {
            if j < fs.len() - 1 {
                assert(fs.drop_last()[j] == fs[j]);
                let k = choose|k: int| 0 <= k < prefix.len() && (#[trigger] prefix[k]).name == fs[j].get_str("name"@)->Some_0 && prefix[k].tags == seq![op];
                assert(all[k] == prefix[k]);
            } else {
                assert(all[prefix.len() as int].name == fs[j].get_str("name"@)->Some_0);
            }
        }
    }
}

/// An introspected schema gives one tool per named field of its query,
/// mutation and subscription types, and no others: each field's tool bears
/// its name and is tagged with its operation kind, the query tools first,
/// then the mutation tools, then the subscription tools.
pub proof fn law_introspection_tool_per_field(data: JsonView, schema: JsonView)
    requires
        data.get("__schema"@) == Some(schema),
    ensures
        introspection_tools(data).len() == named_count(root_fields(schema, "queryType"@)) + named_count(
            root_fields(schema, "mutationType"@),
        ) + named_count(root_fields(schema, "subscriptionType"@)),
        forall|k: int| 0 <= k < introspection_tools(data).len() ==> (#[trigger] introspection_tools(data)[k]).tags == if k < named_count(root_fields(schema, "queryType"@)) {
            seq!["query"@]
        } else if k < named_count(root_fields(schema, "queryType"@)) + named_count(root_fields(schema, "mutationType"@)) {
            seq!["mutation"@]
        } else {
            seq!["subscription"@]
        },
        forall|j: int| 0 <= j < root_fields(schema, "queryType"@).len() && (#[trigger] root_fields(schema, "queryType"@)[j]).get_str("name"@) is Some
            ==> lists_tool(introspection_tools(data), root_fields(schema, "queryType"@)[j].get_str("name"@)->Some_0, "query"@),
        forall|j: int| 0 <= j < root_fields(schema, "mutationType"@).len() && (#[trigger] root_fields(schema, "mutationType"@)[j]).get_str("name"@) is Some
            ==> lists_tool(introspection_tools(data), root_fields(schema, "mutationType"@)[j].get_str("name"@)->Some_0, "mutation"@),
        forall|j: int| 0 <= j < root_fields(schema, "subscriptionType"@).len() && (#[trigger] root_fields(schema, "subscriptionType"@)[j]).get_str("name"@) is Some
            ==> lists_tool(introspection_tools(data), root_fields(schema, "subscriptionType"@)[j].get_str("name"@)->Some_0, "subscription"@),
{
    let qf = root_fields(schema, "queryType"@);
    let mf = root_fields(schema, "mutationType"@);
    let sf = root_fields(schema, "subscriptionType"@);
    let q = field_tools(qf, "query"@);
    let m = field_tools(mf, "mutation"@);
    let s = field_tools(sf, "subscription"@);
    assert(root_type_tools(schema, "queryType"@, "query"@) == q);
    assert(root_type_tools(schema, "mutationType"@, "mutation"@) == m);
    assert(root_type_tools(schema, "subscriptionType"@, "subscription"@) == s);
    let all = introspection_tools(data);
    assert(all == q + m + s);
    lemma_field_tools(qf, "query"@);
    lemma_field_tools(mf, "mutation"@);
    lemma_field_tools(sf, "subscription"@);
    assert forall|k: int| 0 <= k < all.len() implies (#[trigger] all[k]).tags == if k < named_count(qf) {
        seq!["query"@]
    } else if k < named_count(qf) + named_count(mf) {
        seq!["mutation"@]
    } else {
        seq!["subscription"@]
    } by {
        if k < q.len() {
            assert(all[k] == q[k]);
        } else if k < q.len() + m.len() {
            assert(all[k] == m[k - q.len()]);
        } else {
            assert(all[k] == s[k - q.len() - m.len()]);
        }
    }
    assert forall|j: int| 0 <= j < qf.len() && (#[trigger] qf[j]).get_str("name"@) is Some
        implies lists_tool(all, qf[j].get_str("name"@)->Some_0, "query"@) by {
        let k = choose|k: int| 0 <= k < q.len() && (#[trigger] q[k]).name == qf[j].get_str("name"@)->Some_0 && q[k].tags == seq!["query"@];
        assert(all[k] == q[k]);
    }
    assert forall|j: int| 0 <= j < mf.len() && (#[trigger] mf[j]).get_str("name"@) is Some
        implies lists_tool(all, mf[j].get_str("name"@)->Some_0, "mutation"@) by {
        let k = choose|k: int| 0 <= k < m.len() && (#[trigger] m[k]).name == mf[j].get_str("name"@)->Some_0 && m[k].tags == seq!["mutation"@];
        assert(all[q.len() + k] == m[k]);
    }
    assert forall|j: int| 0 <= j < sf.len() && (#[trigger] sf[j]).get_str("name"@) is Some
        implies lists_tool(all, sf[j].get_str("name"@)->Some_0, "subscription"@) by {
        let k = choose|k: int| 0 <= k < s.len() && (#[trigger] s[k]).name == sf[j].get_str("name"@)->Some_0 && s[k].tags == seq!["subscription"@];
        assert(all[q.len() + m.len() + k] == s[k]);
    }
}

impl GraphQLTransport {
    /// A GraphQL transport.
    pub fn new() -> (r: GraphQLTransport) {
        GraphQLTransport
    }

    /// The schema given to the fields of an introspected type.
    pub fn default_schema() -> (r: crate::tools::ToolInputOutputSchema)
        ensures
            r.view() == crate::tools::default_schema_view(),
    {
        crate::tools::default_schema()
    }

    /// The operation kind for a configured kind and a tool name (see `spec_infer_operation`).
    pub fn infer_operation(operation_type: &str, tool_name: &str) -> (r: String)
        ensures
            r@ == spec_infer_operation(operation_type@, tool_name@),
    {
        let trimmed = trim_str(operation_type);
        let op = unicode_lowercase(trimmed.as_str());
        if str_eq(op.as_str(), "query") || str_eq(op.as_str(), "mutation") || str_eq(
            op.as_str(),
            "subscription",
        ) {
            return op;
        }
        let tool = unicode_lowercase(tool_name);
        let t = tool.as_str();
        if str_starts_with(t, "subscription") || str_starts_with(t, "subscribe")
            || str_starts_with(t, "on_") {
            return owned("subscription");
        }
        if str_starts_with(t, "mutation") || str_starts_with(t, "create") || str_starts_with(
            t,
            "update",
        ) || str_starts_with(t, "delete") {
            return owned("mutation");
        }
        owned("query")
    }

    /// The declared type and the value sent for an argument (see `spec_normalize`).
    pub fn normalize_arg_value(key: &str, value: JsonValue) -> (r: (String, JsonValue))
        ensures
            (r.0@, r.1@) == spec_normalize(key@, value@),
    {
        proof {
            value.lemma_object_view();
        }
        match value {
            JsonValue::Bool(b) => (owned("Boolean!"), JsonValue::Bool(b)),
            JsonValue::Number(n) => {
                let small = match &n {
                    JsonNumber::PosInt(u) => *u <= 2147483647u64,
                    JsonNumber::NegInt(i) => -2147483648i64 <= *i && *i <= 2147483647i64,
                    JsonNumber::Float(_) => false,
                };
                if small {
                    (owned("Int!"), JsonValue::Number(n))
                } else {
                    (owned("Float!"), JsonValue::Number(n))
                }
            },
            JsonValue::Str(s) => {
                let lower = to_ascii_lower(key);
                if str_ends_with(lower.as_str(), "_id") {
                    (owned("ID!"), JsonValue::Str(s))
                } else {
                    (owned("String!"), JsonValue::Str(s))
                }
            },
            JsonValue::Null => (owned("String"), JsonValue::Null),
            other => {
                let text = render_json(&other);
                (owned("String!"), JsonValue::Str(text))
            },
        }
    }

    /// The operation text and variables for calling `field` as an `op`
    /// operation named `name` (see `spec_operation_text`, `spec_variables`).
    pub fn build_operation(op: &str, name: &str, field: &str, args: ToolArgs) -> (r: (
        String,
        ToolArgs,
    ))
        ensures
            r.0@ == spec_operation_text(op@, name@, field@, members_view(args@)),
            members_view(r.1@) == spec_variables(members_view(args@)),
    {
        let ghost av = members_view(args@);
        let mut defs: Vec<String> = Vec::new();
        let mut uses: Vec<String> = Vec::new();
        let mut vars: ToolArgs = Vec::new();
        let n = args.len();
        let mut i: usize = 0;
        while i < n
            invariant
                n == av.len(),
                av == members_view(args@),
                0 <= i <= n,
                views(defs@) == spec_arg_defs(av).take(i as int),
                views(uses@) == spec_arg_uses(av).take(i as int),
                members_view(vars@) == spec_variables(av).take(i as int),
            decreases n - i,
        {
            let key = args[i].0.clone();
            let value = args[i].1.duplicate();
            let ghost before_defs = views(defs@);
            let ghost before_uses = views(uses@);
            let ghost before_vars = members_view(vars@);
            let (ty, norm) = Self::normalize_arg_value(key.as_str(), value);
            defs.push(concat4("$", key.as_str(), ": ", ty.as_str()));
            uses.push(concat3(key.as_str(), ": $", key.as_str()));
            let ghost kv = key@;
            let ghost nv = norm@;
            vars.push((key, norm));
            proof {
                assert(views(defs@) =~= before_defs.push(defs@.last()@));
                assert(spec_arg_defs(av).take(i + 1) =~= spec_arg_defs(av).take(i as int).push(
                    spec_arg_defs(av)[i as int],
                ));
                assert(views(uses@) =~= before_uses.push(uses@.last()@));
                assert(spec_arg_uses(av).take(i + 1) =~= spec_arg_uses(av).take(i as int).push(
                    spec_arg_uses(av)[i as int],
                ));
                assert(members_view(vars@) =~= before_vars.push((kv, nv)));
                assert(spec_variables(av).take(i + 1) =~= spec_variables(av).take(i as int).push(
                    spec_variables(av)[i as int],
                ));
            }
            i = i + 1;
        }
        proof {
            assert(spec_arg_defs(av).take(n as int) =~= spec_arg_defs(av));
            assert(spec_arg_uses(av).take(n as int) =~= spec_arg_uses(av));
            assert(spec_variables(av).take(n as int) =~= spec_variables(av));
        }
        let text = if n > 0 {
            let d = join_strings(&defs, ", ");
            let u = join_strings(&uses, ", ");
            let head = concat4(op, " ", name, "(");
            let mid = concat4(d.as_str(), ") { ", field, "(");
            let tail = concat2(u.as_str(), ") }");
            concat3(head.as_str(), mid.as_str(), tail.as_str())
        } else {
            concat4(op, " { ", field, " }")
        };
        (text, vars)
    }

    /// The operation for calling `tool_name` with `args` on `prov`: the
    /// provider prefix is stripped from the field name, the kind inferred,
    /// the name taken from the provider or the field.
    pub fn operation_for(prov: &GraphqlProvider, tool_name: &str, args: ToolArgs) -> (r: GraphqlOperation)
        ensures
            r.view() == spec_operation(*prov, tool_name@, members_view(args@)),
    {
        let field = call_name(tool_name, prov.base.name.as_str());
        let op = Self::infer_operation(prov.operation_type.as_str(), field.as_str());
        let name = match &prov.operation_name {
            Some(n) => n.clone(),
            None => field.clone(),
        };
        let (query, variables) = Self::build_operation(op.as_str(), name.as_str(), field.as_str(), args);
        GraphqlOperation { operation_type: op, query, variables }
    }

    /// The body of a query request: `{"query": query, "variables": variables}`.
    pub fn query_request_body(op: &GraphqlOperation) -> (r: JsonValue)
        ensures
            r@ == JsonView::Object(
                seq![
                    ("query"@, JsonView::Str(op.query@)),
                    ("variables"@, JsonView::Object(members_view(op.variables@))),
                ],
            ),
    {
        object2(
            "query",
            JsonValue::from_str(op.query.as_str()),
            "variables",
            crate::transports::common::args_object(&op.variables),
        )
    }

    /// The introspection query that lists the root operation fields.
    pub fn introspection_query() -> (r: String)
        ensures
            r@ == "\n        query IntrospectionQuery {\n          __schema {\n            queryType { fields { name description } }\n            mutationType { fields { name description } }\n            subscriptionType { fields { name description } }\n          }\n        }"@,
    {
        owned("\n        query IntrospectionQuery {\n          __schema {\n            queryType { fields { name description } }\n            mutationType { fields { name description } }\n            subscriptionType { fields { name description } }\n          }\n        }")
    }

    /// Where the HTTP requests of this transport carry the credentials.
    pub fn apply_auth(&self, auth: &AuthConfig) -> (r: Result<CredentialPlacement, TransportError>)
        ensures
            r is Ok <==> http_auth_placeable(*auth),
            match r {
                Ok(p) => http_auth_ok(*auth, p),
                Err(e) => http_auth_err(*auth, "GraphQL"@, e),
            },
    {
        http_auth_placement(auth, "GraphQL")
    }

    /// The error for a query answered with a failure status.
    pub fn request_failed(status: &str) -> (r: TransportError)
        ensures
            r.kind == ErrorKind::RequestFailed,
            r.message@ == "GraphQL request failed: "@ + status@,
    {
        status_error("GraphQL request failed: ", status)
    }

    /// What a query response yields (see `spec_query_result`).
    pub fn query_result(response: &JsonValue) -> (r: Result<JsonValue, TransportError>)
        ensures
            item_view(r) == spec_query_result(response@),
            r matches Err(e) ==> e.kind == (if response@.get("errors"@) is Some {
                ErrorKind::RemoteError
            } else {
                ErrorKind::InvalidResponse
            }),
    {
        match response.get("errors") {
            Some(errs) => {
                let text = render_json(errs);
                Err(error_with(ErrorKind::RemoteError, "GraphQL errors: ", text.as_str()))
            },
            None => match response.get("data") {
                Some(d) => Ok(d.duplicate()),
                None => Err(TransportError::new(ErrorKind::InvalidResponse, "No data in GraphQL response")),
            },
        }
    }

    fn field_tools_of(fields: &Vec<JsonValue>, op: &str) -> (r: Vec<Tool>)
        ensures
            tool_views(r@) == field_tools(crate::json::items_view(fields@), op@),
    {
        let ghost fv = crate::json::items_view(fields@);
        let mut tags: Vec<String> = Vec::new();
        tags.push(owned(op));
        assert(views(tags@) =~= seq![op@]);
        let mut out: Vec<Tool> = Vec::new();
        let mut i: usize = 0;
        while i < fields.len()
            invariant
                fv == crate::json::items_view(fields@),
                views(tags@) == seq![op@],
                0 <= i <= fields@.len(),
                tool_views(out@) == field_tools(fv.take(i as int), op@),
            decreases fields@.len() - i,
        {
            assert(fv.take(i + 1).drop_last() =~= fv.take(i as int));
            assert(fv.take(i + 1).last() == fields@[i as int]@);
            match fields[i].get_str("name") {
                Some(n) => {
                    let desc = match fields[i].get_str("description") {
                        Some(d) => d.clone(),
                        None => String::new(),
                    };
                    let t = plain_tool(n.as_str(), desc.as_str(), &tags);
                    let ghost before = tool_views(out@);
                    out.push(t);
                    assert(tool_views(out@) =~= before.push(t.view()));
                },
                None => {},
            }
            i = i + 1;
        }
        assert(fv.take(fields@.len() as int) =~= fv);
        out
    }

    fn root_type_tools_of(schema: &JsonValue, key: &str, op: &str) -> (r: Vec<Tool>)
        ensures
            tool_views(r@) == root_type_tools(schema@, key@, op@),
    {
        match schema.get(key) {
            Some(t) => match t.get_array("fields") {
                Some(fs) => Self::field_tools_of(fs, op),
                None => {
                    let e: Vec<Tool> = Vec::new();
                    assert(tool_views(e@) =~= Seq::<ToolView>::empty());
                    e
                },
            },
            None => {
                let e: Vec<Tool> = Vec::new();
                assert(tool_views(e@) =~= Seq::<ToolView>::empty());
                e
            },
        }
    }

    /// The tools an introspection answer's `data` lists (see `introspection_tools`).
    pub fn tools_from_introspection(data: &JsonValue) -> (r: Vec<Tool>)
        ensures
            tool_views(r@) == introspection_tools(data@),
    {
        match data.get("__schema") {
            Some(s) => {
                let mut q = Self::root_type_tools_of(s, "queryType", "query");
                let m = Self::root_type_tools_of(s, "mutationType", "mutation");
                let sub = Self::root_type_tools_of(s, "subscriptionType", "subscription");
                let ghost qv = tool_views(q@);
                let mut m2 = m;
                let mut sub2 = sub;
                q.append(&mut m2);
                q.append(&mut sub2);
                assert(tool_views(q@) =~= introspection_tools(data@));
                q
            },
            None => {
                let e: Vec<Tool> = Vec::new();
                assert(tool_views(e@) =~= Seq::<ToolView>::empty());
                e
            },
        }
    }

    /// The tools found on registration: those of the introspection answer,
    /// or none when the introspection query failed.
    pub fn tools_from_registration(answer: &Result<JsonValue, TransportError>) -> (r: Vec<Tool>)
        ensures
            tool_views(r@) == match answer {
                Ok(d) => introspection_tools(d@),
                Err(_) => Seq::<ToolView>::empty(),
            },
    {
        match answer {
            Ok(d) => Self::tools_from_introspection(d),
            Err(_) => {
                let e: Vec<Tool> = Vec::new();
                assert(tool_views(e@) =~= Seq::<ToolView>::empty());
                e
            },
        }
    }

    /// The refusal to stream an operation that is no subscription.
    pub fn not_a_subscription(field: &str, operation_type: &str) -> (r: TransportError)
        ensures
            r.kind == ErrorKind::StreamingUnsupported,
            r.message@ == "call_tool_stream is only for GraphQL subscriptions; '"@ + field@
                + "' is a "@ + operation_type@,
    {
        let head = concat3("call_tool_stream is only for GraphQL subscriptions; '", field, "' is a ");
        error_with(ErrorKind::StreamingUnsupported, head.as_str(), operation_type)
    }

    /// The WebSocket URL of the endpoint (see `spec_ws_url`).
    pub fn subscription_url(url: &str, auth: &Option<AuthConfig>) -> (r: String)
        ensures
            r@ == spec_ws_url(url@, *auth),
    {
        proof {
            reveal_strlit("http://");
            reveal_strlit("https://");
        }
        let u1 = replace_str(url, "http://", "ws://");
        let u = replace_str(u1.as_str(), "https://", "wss://");
        match auth {
            Some(AuthConfig::ApiKey(k)) => {
                let loc = to_ascii_lower(k.location.as_str());
                if str_eq(loc.as_str(), "query") {
                    let sep = if str_contains(u.as_str(), "?") {
                        "&"
                    } else {
                        "?"
                    };
                    let a = concat2(u.as_str(), sep);
                    concat4(a.as_str(), k.var_name.as_str(), "=", k.api_key.as_str())
                } else {
                    u
                }
            },
            _ => u,
        }
    }

    /// The `Host` header for a WebSocket URL (see `spec_ws_host`).
    pub fn subscription_host(url: &str) -> (r: String)
        ensures
            r@ == spec_ws_host(url@),
    {
        let parts = split_on_char(url, '/');
        if parts.len() > 2 {
            assert(views(parts@)[2] == parts@[2]@);
            parts[2].clone()
        } else {
            owned("localhost")
        }
    }

    /// The credential headers of a subscription request (see `spec_ws_auth_headers`).
    pub fn subscription_auth_headers(auth: &Option<AuthConfig>) -> (r: Result<Vec<(String, String)>, TransportError>)
        ensures
            match (r, spec_ws_auth_headers(*auth)) {
                (Ok(h), Ok(hv)) => headers_view(h@) == hv,
                (Err(e), Err(m)) => e.kind == ErrorKind::UnsupportedAuth && e.message@ == m,
                _ => false,
            },
    {
        let mut out: Vec<(String, String)> = Vec::new();
        assert(headers_view(out@) =~= Seq::<(Seq<char>, Seq<char>)>::empty());
        match auth {
            None => Ok(out),
            Some(AuthConfig::ApiKey(k)) => {
                let loc = to_ascii_lower(k.location.as_str());
                if str_eq(loc.as_str(), "header") {
                    push_header(&mut out, k.var_name.as_str(), k.api_key.as_str());
                    Ok(out)
                } else if str_eq(loc.as_str(), "cookie") {
                    let c = concat3(k.var_name.as_str(), "=", k.api_key.as_str());
                    push_header(&mut out, "cookie", c.as_str());
                    Ok(out)
                } else if str_eq(loc.as_str(), "query") {
                    Ok(out)
                } else {
                    Err(error_with(ErrorKind::UnsupportedAuth, "Unsupported API key location for WebSocket: ", loc.as_str()))
                }
            },
            Some(AuthConfig::Basic(b)) => {
                let v = basic_header_value(b.username.as_str(), b.password.as_str());
                push_header(&mut out, "authorization", v.as_str());
                Ok(out)
            },
            Some(AuthConfig::OAuth2(_)) => Err(
                TransportError::new(ErrorKind::UnsupportedAuth, "OAuth2 is not supported for GraphQL WebSocket subscriptions"),
            ),
        }
    }

    /// The message `{"type": "connection_init"}` that opens the protocol.
    pub fn init_message() -> (r: JsonValue)
        ensures
            r@ == JsonView::Object(seq![("type"@, JsonView::Str("connection_init"@))]),
    {
        object1("type", JsonValue::from_str("connection_init"))
    }

    /// Everything a subscription to `tool_name` with `args` on `prov` needs,
    /// or the refusal: when the operation is no subscription, or when the
    /// credentials cannot go on a WebSocket request.
    pub fn subscription_plan(prov: &GraphqlProvider, tool_name: &str, args: ToolArgs) -> (r: Result<SubscriptionPlan, TransportError>)
        ensures
            ({
                let (op, query, vars) = spec_operation(*prov, tool_name@, members_view(args@));
                let field = spec_call_name(tool_name@, prov.base.name@);
                let url = spec_ws_url(prov.url@, prov.base.auth);
                if op != "subscription"@ {
                    r matches Err(e) && e.kind == ErrorKind::StreamingUnsupported && e.message@
                        == "call_tool_stream is only for GraphQL subscriptions; '"@ + field
                        + "' is a "@ + op
                } else {
                    match spec_ws_auth_headers(prov.base.auth) {
                        Err(m) => r matches Err(e) && e.kind == ErrorKind::UnsupportedAuth && e.message@ == m,
                        Ok(ah) => r matches Ok(p) && p.url@ == url && p.host@ == spec_ws_host(url)
                            && headers_view(p.headers@) == ah + opt_headers_view(prov.headers)
                            && p.init_message@ == JsonView::Object(seq![("type"@, JsonView::Str("connection_init"@))])
                            && p.subscribe_message@ == spec_subscribe_message(query, vars),
                    }
                }
            }),
    {
        let field = call_name(tool_name, prov.base.name.as_str());
        let op = Self::operation_for(prov, tool_name, args);
        if !str_eq(op.operation_type.as_str(), "subscription") {
            return Err(Self::not_a_subscription(field.as_str(), op.operation_type.as_str()));
        }
        let url = Self::subscription_url(prov.url.as_str(), &prov.base.auth);
        let host = Self::subscription_host(url.as_str());
        let mut headers = match Self::subscription_auth_headers(&prov.base.auth) {
            Ok(h) => h,
            Err(e) => return Err(e),
        };
        append_opt_headers(&mut headers, &prov.headers);
        let payload = Self::query_request_body(&op);
        let subscribe = crate::transports::common::object3(
            "id",
            JsonValue::from_str("1"),
            "type",
            JsonValue::from_str("subscribe"),
            "payload",
            payload,
        );
        Ok(SubscriptionPlan { url, host, headers, init_message: Self::init_message(), subscribe_message: subscribe })
    }

    /// Checks the reply to `connection_init` (see `spec_ack_check`).
    pub fn check_ack(text: &str) -> (r: Result<(), TransportError>)
        ensures
            match (r, spec_ack_check(text@)) {
                (Ok(_), Ok(_)) => true,
                (Err(e), Err(m)) => e.message@ == m && (e.kind == ErrorKind::Parse
                    || e.kind == ErrorKind::InvalidResponse),
                _ => false,
            },
    {
        match crate::json::parse_json(text) {
            Err(e) => Err(TransportError::with_message(ErrorKind::Parse, e)),
            Ok(ack) => {
                let ok = match ack.get_str("type") {
                    Some(t) => str_eq(t.as_str(), "connection_ack"),
                    None => false,
                };
                if ok {
                    Ok(())
                } else {
                    Err(error_with(ErrorKind::InvalidResponse, "Expected connection_ack, got: ", text))
                }
            },
        }
    }

    /// The refusal of a reply to `connection_init` that is not text.
    pub fn non_text_ack() -> (r: TransportError)
        ensures
            r.kind == ErrorKind::InvalidResponse,
            r.message@ == "Expected text message for connection_ack"@,
    {
        TransportError::new(ErrorKind::InvalidResponse, "Expected text message for connection_ack")
    }

    /// What an incoming text message of the subscription hands on (see
    /// `spec_subscription_step`).
    pub fn subscription_step(text: &str) -> (r: StreamStep)
        ensures
            r.view() == spec_subscription_step(text@),
    {
        let msg = match crate::json::parse_json(text) {
            Err(e) => {
                let m = concat2("Failed to parse WebSocket message: ", e.as_str());
                return StreamStep::one(Err(TransportError::with_message(ErrorKind::Parse, m)), true);
            },
            Ok(m) => m,
        };
        let kind = match msg.get_str("type") {
            Some(t) => {
                if str_eq(t.as_str(), "next") {
                    1u8
                } else if str_eq(t.as_str(), "error") {
                    2u8
                } else if str_eq(t.as_str(), "complete") {
                    3u8
                } else {
                    0u8
                }
            },
            None => 0u8,
        };
        if kind == 1 {
            match msg.get("payload") {
                None => StreamStep::empty(false),
                Some(p) => {
                    let mut items: Vec<Result<JsonValue, TransportError>> = Vec::new();
                    let ghost start = items_view(items@);
                    assert(start =~= Seq::<Result<JsonView, Seq<char>>>::empty());
                    match p.get("data") {
                        Some(d) => {
                            items.push(Ok(d.duplicate()));
                            assert(items_view(items@) =~= seq![Ok::<JsonView, Seq<char>>(d@)]);
                        },
                        None => {},
                    }
                    match p.get("errors") {
                        Some(errs) => {
                            let t = render_json(errs);
                            let e = error_with(ErrorKind::RemoteError, "GraphQL subscription error: ", t.as_str());
                            let ghost before = items_view(items@);
                            let ghost ev = item_view(Err::<JsonValue, TransportError>(e));
                            items.push(Err(e));
                            assert(items_view(items@) =~= before.push(ev));
                            StreamStep { items, finished: true }
                        },
                        None => StreamStep { items, finished: false },
                    }
                },
            }
        } else if kind == 2 {
            let detail = match msg.get("payload") {
                Some(p) => render_json(p),
                None => owned("Unknown error"),
            };
            let e = error_with(ErrorKind::RemoteError, "GraphQL subscription error: ", detail.as_str());
            StreamStep::one(Err(e), true)
        } else if kind == 3 {
            StreamStep::empty(true)
        } else {
            StreamStep::empty(false)
        }
    }
}

} // verus!
