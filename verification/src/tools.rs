use vstd::prelude::*;
use crate::chars::{copy_strings, owned, views};
use crate::json::{items_view, JsonNumber, JsonValue, JsonView, NumberView};

verus! {

/// A JSON-schema-like description of a tool's inputs or outputs.
#[derive(Debug, PartialEq)]
pub struct ToolInputOutputSchema {
    pub type_: String,
    pub properties: Option<JsonValue>,
    pub required: Option<Vec<String>>,
    pub description: Option<String>,
    pub title: Option<String>,
    pub items: Option<JsonValue>,
    pub enum_: Option<Vec<JsonValue>>,
    pub minimum: Option<JsonNumber>,
    pub maximum: Option<JsonNumber>,
    pub format: Option<String>,
}

/// A tool that a provider offers.
#[derive(Debug, PartialEq)]
pub struct Tool {
    pub name: String,
    pub description: String,
    pub inputs: ToolInputOutputSchema,
    pub outputs: ToolInputOutputSchema,
    pub tags: Vec<String>,
    pub average_response_size: Option<i64>,
    pub provider: Option<JsonValue>,
}

/// The model of a schema.
pub ghost struct SchemaView {
    pub type_: Seq<char>,
    pub properties: Option<JsonView>,
    pub required: Option<Seq<Seq<char>>>,
    pub description: Option<Seq<char>>,
    pub title: Option<Seq<char>>,
    pub items: Option<JsonView>,
    pub enum_: Option<Seq<JsonView>>,
    pub minimum: Option<NumberView>,
    pub maximum: Option<NumberView>,
    pub format: Option<Seq<char>>,
}

/// The model of a tool.
pub ghost struct ToolView {
    pub name: Seq<char>,
    pub description: Seq<char>,
    pub inputs: SchemaView,
    pub outputs: SchemaView,
    pub tags: Seq<Seq<char>>,
    pub average_response_size: Option<i64>,
    pub provider: Option<JsonView>,
}

pub open spec fn opt_str_view(o: Option<String>) -> Option<Seq<char>> {
    match o {
        Some(s) => Some(s@),
        None => None,
    }
}

pub open spec fn opt_json_view(o: Option<JsonValue>) -> Option<JsonView> {
    match o {
        Some(v) => Some(v@),
        None => None,
    }
}

pub open spec fn opt_number_view(o: Option<JsonNumber>) -> Option<NumberView> {
    match o {
        Some(n) => Some(n.view()),
        None => None,
    }
}

pub open spec fn opt_strings_view(o: Option<Vec<String>>) -> Option<Seq<Seq<char>>> {
    match o {
        Some(v) => Some(views(v@)),
        None => None,
    }
}

pub open spec fn opt_items_view(o: Option<Vec<JsonValue>>) -> Option<Seq<JsonView>> {
    match o {
        Some(v) => Some(items_view(v@)),
        None => None,
    }
}

impl ToolInputOutputSchema {
    pub open spec fn view(&self) -> SchemaView {
        SchemaView {
            type_: self.type_@,
            properties: opt_json_view(self.properties),
            required: opt_strings_view(self.required),
            description: opt_str_view(self.description),
            title: opt_str_view(self.title),
            items: opt_json_view(self.items),
            enum_: opt_items_view(self.enum_),
            minimum: opt_number_view(self.minimum),
            maximum: opt_number_view(self.maximum),
            format: opt_str_view(self.format),
        }
    }
}

impl Tool {
    pub open spec fn view(&self) -> ToolView {
        ToolView {
            name: self.name@,
            description: self.description@,
            inputs: self.inputs.view(),
            outputs: self.outputs.view(),
            tags: views(self.tags@),
            average_response_size: self.average_response_size,
            provider: opt_json_view(self.provider),
        }
    }
}

/// The views of a sequence of tools.
pub open spec fn tool_views(ts: Seq<Tool>) -> Seq<ToolView> {
    ts.map_values(|t: Tool| t.view())
}

/// The schema of type `object` with nothing else set.
pub open spec fn default_schema_view() -> SchemaView {
    SchemaView {
        type_: "object"@,
        properties: None,
        required: None,
        description: None,
        title: None,
        items: None,
        enum_: None,
        minimum: None,
        maximum: None,
        format: None,
    }
}

/// The schema of type `object` with nothing else set.
pub fn default_schema() -> (r: ToolInputOutputSchema)
    ensures
        r.view() == default_schema_view(),
{
    ToolInputOutputSchema {
        type_: owned("object"),
        properties: None,
        required: None,
        description: None,
        title: None,
        items: None,
        enum_: None,
        minimum: None,
        maximum: None,
        format: None,
    }
}

/// A tool known only by name, description and tags, with default schemas.
pub open spec fn plain_tool_view(name: Seq<char>, description: Seq<char>, tags: Seq<Seq<char>>) -> ToolView {
    ToolView {
        name,
        description,
        inputs: default_schema_view(),
        outputs: default_schema_view(),
        tags,
        average_response_size: None,
        provider: None,
    }
}

/// A tool known only by name, description and tags, with default schemas.
pub fn plain_tool(name: &str, description: &str, tags: &Vec<String>) -> (r: Tool)
    ensures
        r.view() == plain_tool_view(name@, description@, views(tags@)),
{
    let t = copy_strings(tags);
    assert(views(t@) =~= views(tags@));
    Tool {
        name: owned(name),
        description: owned(description),
        inputs: default_schema(),
        outputs: default_schema(),
        tags: t,
        average_response_size: None,
        provider: None,
    }
}

// ---------------------------------------------------------------------------
// Reading tools from JSON
// ---------------------------------------------------------------------------

/// An optional string member: `Some(None)` when absent or null, `Some(Some(s))`
/// for a string, `None` (a decoding failure) for any other value.
pub open spec fn member_opt_str(v: JsonView, key: Seq<char>) -> Option<Option<Seq<char>>> {
    match v.get(key) {
        None => Some(None),
        Some(JsonView::Null) => Some(None),
        Some(JsonView::Str(s)) => Some(Some(s)),
        _ => None,
    }
}

/// An optional object member, as for `member_opt_str`.
pub open spec fn member_opt_object(v: JsonView, key: Seq<char>) -> Option<Option<JsonView>> {
    match v.get(key) {
        None => Some(None),
        Some(JsonView::Null) => Some(None),
        Some(JsonView::Object(m)) => Some(Some(JsonView::Object(m))),
        _ => None,
    }
}

/// An optional array member, as for `member_opt_str`.
pub open spec fn member_opt_array(v: JsonView, key: Seq<char>) -> Option<Option<Seq<JsonView>>> {
    match v.get(key) {
        None => Some(None),
        Some(JsonView::Null) => Some(None),
        Some(JsonView::Array(a)) => Some(Some(a)),
        _ => None,
    }
}

/// An optional number member, as for `member_opt_str`.
pub open spec fn member_opt_number(v: JsonView, key: Seq<char>) -> Option<Option<NumberView>> {
    match v.get(key) {
        None => Some(None),
        Some(JsonView::Null) => Some(None),
        Some(JsonView::Number(n)) => Some(Some(n)),
        _ => None,
    }
}

/// The texts of an array whose elements are all strings.
pub open spec fn all_strings(items: Seq<JsonView>) -> Option<Seq<Seq<char>>>
    decreases items.len(),
{
    if items.len() == 0 {
        Some(seq![])
    } else {
        match (all_strings(items.drop_last()), items.last()) {
            (Some(prefix), JsonView::Str(s)) => Some(prefix.push(s)),
            _ => None,
        }
    }
}

/// An optional list-of-strings member, as for `member_opt_str`.
pub open spec fn member_opt_strings(v: JsonView, key: Seq<char>) -> Option<Option<Seq<Seq<char>>>> {
    match member_opt_array(v, key) {
        Some(Some(a)) => match all_strings(a) {
            Some(ss) => Some(Some(ss)),
            None => None,
        },
        Some(None) => Some(None),
        None => None,
    }
}

/// An optional integer member that fits `i64`, as for `member_opt_str`.
pub open spec fn member_opt_i64(v: JsonView, key: Seq<char>) -> Option<Option<i64>> {
    match member_opt_number(v, key) {
        Some(Some(NumberView::PosInt(u))) => if u <= i64::MAX {
            Some(Some(u as i64))
        } else {
            None
        },
        Some(Some(NumberView::NegInt(i))) => Some(Some(i)),
        Some(Some(NumberView::Float(_))) => None,
        Some(None) => Some(None),
        None => None,
    }
}

/// How a schema is read from JSON: an object whose `type` is a string
/// (empty when absent), `properties` and `items` objects, `required` a list
/// of strings, `enum` a list, `minimum` and `maximum` numbers, and
/// `description`, `title`, `format` strings, each of them optional.
pub open spec fn decode_schema(v: JsonView) -> Option<SchemaView> {
    if !(v is Object) {
        None
    } else {
        match (
            member_opt_str(v, "type"@),
            member_opt_object(v, "properties"@),
            member_opt_strings(v, "required"@),
            member_opt_str(v, "description"@),
            member_opt_str(v, "title"@),
        ) {
            (Some(ty), Some(props), Some(req), Some(desc), Some(title)) => match (
                member_opt_object(v, "items"@),
                member_opt_array(v, "enum"@),
                member_opt_number(v, "minimum"@),
                member_opt_number(v, "maximum"@),
                member_opt_str(v, "format"@),
            ) {
                (Some(items), Some(en), Some(min), Some(max), Some(fmt)) => Some(
                    SchemaView {
                        type_: match ty {
                            Some(t) => t,
                            None => seq![],
                        },
                        properties: props,
                        required: req,
                        description: desc,
                        title,
                        items,
                        enum_: en,
                        minimum: min,
                        maximum: max,
                        format: fmt,
                    },
                ),
                _ => None,
            },
            _ => None,
        }
    }
}

/// How a tool is read from JSON: an object with a string `name`, schemas
/// `inputs` and `outputs`, and optionally a string `description` (empty when
/// absent), a list of string `tags` (empty when absent), an integer
/// `average_response_size` and an object `tool_provider`.
pub open spec fn decode_tool(v: JsonView) -> Option<ToolView> {
    if !(v is Object) {
        None
    } else {
        match (v.get_str("name"@), member_opt_str(v, "description"@), v.get("inputs"@), v.get(
            "outputs"@,
        )) {
            (Some(name), Some(desc), Some(iv), Some(ov)) => match (
                decode_schema(iv),
                decode_schema(ov),
                member_opt_strings(v, "tags"@),
                member_opt_i64(v, "average_response_size"@),
                member_opt_object(v, "tool_provider"@),
            ) {
                (Some(inputs), Some(outputs), Some(tags), Some(size), Some(prov)) => Some(
                    ToolView {
                        name,
                        description: match desc {
                            Some(d) => d,
                            None => seq![],
                        },
                        inputs,
                        outputs,
                        tags: match tags {
                            Some(t) => t,
                            None => seq![],
                        },
                        average_response_size: size,
                        provider: prov,
                    },
                ),
                _ => None,
            },
            _ => None,
        }
    }
}

fn opt_str_member(v: &JsonValue, key: &str) -> (r: Option<Option<String>>)
    ensures
        match r {
            Some(o) => member_opt_str(v@, key@) == Some(opt_str_view(o)),
            None => member_opt_str(v@, key@) is None,
        },
{
    match v.get(key) {
        None => Some(None),
        Some(JsonValue::Null) => Some(None),
        Some(JsonValue::Str(s)) => Some(Some(s.clone())),
        _ => None,
    }
}

fn opt_object_member(v: &JsonValue, key: &str) -> (r: Option<Option<JsonValue>>)
    ensures
        match r {
            Some(o) => member_opt_object(v@, key@) == Some(opt_json_view(o)),
            None => member_opt_object(v@, key@) is None,
        },
{
    match v.get(key) {
        None => Some(None),
        Some(JsonValue::Null) => Some(None),
        Some(x) => {
            if let JsonValue::Object(_) = x {
                proof {
                    x.lemma_object_view();
                }
                Some(Some(x.duplicate()))
            } else {
                None
            }
        },
    }
}

fn opt_array_member(v: &JsonValue, key: &str) -> (r: Option<Option<Vec<JsonValue>>>)
    ensures
        match r {
            Some(o) => member_opt_array(v@, key@) == Some(opt_items_view(o)),
            None => member_opt_array(v@, key@) is None,
        },
{
    match v.get(key) {
        None => Some(None),
        Some(JsonValue::Null) => Some(None),
        Some(x) => match x {
            JsonValue::Array(items) => {
                proof {
                    x.lemma_object_view();
                }
                let mut out: Vec<JsonValue> = Vec::new();
                let mut i: usize = 0;
                while i < items.len()
                    invariant
                        0 <= i <= items@.len(),
                        out@.len() == i,
                        forall|j: int| 0 <= j < i ==> #[trigger] out@[j]@ == items@[j]@,
                    decreases items@.len() - i,
                {
                    out.push(items[i].duplicate());
                    i = i + 1;
                }
                assert(items_view(out@) =~= items_view(items@));
                Some(Some(out))
            },
            _ => None,
        },
    }
}

fn opt_number_member(v: &JsonValue, key: &str) -> (r: Option<Option<JsonNumber>>)
    ensures
        match r {
            Some(o) => member_opt_number(v@, key@) == Some(opt_number_view(o)),
            None => member_opt_number(v@, key@) is None,
        },
{
    match v.get(key) {
        None => Some(None),
        Some(JsonValue::Null) => Some(None),
        Some(JsonValue::Number(n)) => Some(Some(n.duplicate())),
        _ => None,
    }
}

/// The texts of the elements, when all of them are strings.
fn strings_of(items: &Vec<JsonValue>) -> (r: Option<Vec<String>>)
    ensures
        match r {
            Some(v) => all_strings(items_view(items@)) == Some(views(v@)),
            None => all_strings(items_view(items@)) is None,
        },
{
    let mut out: Vec<String> = Vec::new();
    let mut i: usize = 0;
    while i < items.len()
        invariant
            0 <= i <= items@.len(),
            all_strings(items_view(items@).take(i as int)) == Some(views(out@)),
        decreases items@.len() - i,
    {
        let ghost pre = items_view(items@).take(i as int);
        assert(items_view(items@).take(i + 1).drop_last() =~= pre);
        match &items[i] {
            JsonValue::Str(s) => {
                out.push(s.clone());
                assert(views(out@) =~= views(out@.drop_last()).push(s@));
            },
            _ => {
                proof {
                    lemma_all_strings_prefix(items_view(items@), i as int + 1);
                }
                return None;
            },
        }
        i = i + 1;
    }
    assert(items_view(items@).take(items@.len() as int) =~= items_view(items@));
    Some(out)
}

proof fn lemma_all_strings_prefix(items: Seq<JsonView>, k: int)
    requires
        0 <= k <= items.len(),
        all_strings(items.take(k)) is None,
    ensures
        all_strings(items) is None,
    decreases items.len() - k,
{
    if k < items.len() {
        assert(items.take(k + 1).drop_last() =~= items.take(k));
        lemma_all_strings_prefix(items, k + 1);
    } else {
        assert(items.take(k) =~= items);
    }
}

fn opt_strings_member(v: &JsonValue, key: &str) -> (r: Option<Option<Vec<String>>>)
    ensures
        match r {
            Some(o) => member_opt_strings(v@, key@) == Some(opt_strings_view(o)),
            None => member_opt_strings(v@, key@) is None,
        },
{
    match opt_array_member(v, key) {
        Some(Some(items)) => match strings_of(&items) {
            Some(ss) => Some(Some(ss)),
            None => None,
        },
        Some(None) => Some(None),
        None => None,
    }
}

fn opt_i64_member(v: &JsonValue, key: &str) -> (r: Option<Option<i64>>)
    ensures
        r == member_opt_i64(v@, key@),
{
    match opt_number_member(v, key) {
        Some(Some(JsonNumber::PosInt(u))) => if u <= i64::MAX as u64 {
            Some(Some(u as i64))
        } else {
            None
        },
        Some(Some(JsonNumber::NegInt(i))) => Some(Some(i)),
        Some(Some(JsonNumber::Float(_))) => None,
        Some(None) => Some(None),
        None => None,
    }
}

/// Reads a schema from JSON (see `decode_schema`).
pub fn schema_from_json(v: &JsonValue) -> (r: Option<ToolInputOutputSchema>)
    ensures
        match r {
            Some(s) => decode_schema(v@) == Some(s.view()),
            None => decode_schema(v@) is None,
        },
{
    if let JsonValue::Object(_) = v {
    } else {
        return None;
    }
    let ty = match opt_str_member(v, "type") {
        Some(t) => t,
        None => return None,
    };
    let props = match opt_object_member(v, "properties") {
        Some(p) => p,
        None => return None,
    };
    let req = match opt_strings_member(v, "required") {
        Some(p) => p,
        None => return None,
    };
    let desc = match opt_str_member(v, "description") {
        Some(p) => p,
        None => return None,
    };
    let title = match opt_str_member(v, "title") {
        Some(p) => p,
        None => return None,
    };
    let items = match opt_object_member(v, "items") {
        Some(p) => p,
        None => return None,
    };
    let en = match opt_array_member(v, "enum") {
        Some(p) => p,
        None => return None,
    };
    let min = match opt_number_member(v, "minimum") {
        Some(p) => p,
        None => return None,
    };
    let max = match opt_number_member(v, "maximum") {
        Some(p) => p,
        None => return None,
    };
    let fmt = match opt_str_member(v, "format") {
        Some(p) => p,
        None => return None,
    };
    let type_ = match ty {
        Some(t) => t,
        None => String::new(),
    };
    Some(
        ToolInputOutputSchema {
            type_,
            properties: props,
            required: req,
            description: desc,
            title,
            items,
            enum_: en,
            minimum: min,
            maximum: max,
            format: fmt,
        },
    )
}

/// Reads a tool from JSON (see `decode_tool`).
pub fn tool_from_json(v: &JsonValue) -> (r: Option<Tool>)
    ensures
        match r {
            Some(t) => decode_tool(v@) == Some(t.view()),
            None => decode_tool(v@) is None,
        },
{
    if let JsonValue::Object(_) = v {
    } else {
        return None;
    }
    let name = match v.get_str("name") {
        Some(n) => n.clone(),
        None => return None,
    };
    let desc = match opt_str_member(v, "description") {
        Some(d) => d,
        None => return None,
    };
    let inputs = match v.get("inputs") {
        Some(iv) => match schema_from_json(iv) {
            Some(s) => s,
            None => return None,
        },
        None => return None,
    };
    let outputs = match v.get("outputs") {
        Some(ov) => match schema_from_json(ov) {
            Some(s) => s,
            None => return None,
        },
        None => return None,
    };
    let tags = match opt_strings_member(v, "tags") {
        Some(t) => t,
        None => return None,
    };
    let size = match opt_i64_member(v, "average_response_size") {
        Some(s) => s,
        None => return None,
    };
    let prov = match opt_object_member(v, "tool_provider") {
        Some(p) => p,
        None => return None,
    };
    let description = match desc {
        Some(d) => d,
        None => String::new(),
    };
    let tags = match tags {
        Some(t) => t,
        None => {
            let e: Vec<String> = Vec::new();
            assert(views(e@) =~= Seq::<Seq<char>>::empty());
            e
        },
    };
    Some(
        Tool {
            name,
            description,
            inputs,
            outputs,
            tags,
            average_response_size: size,
            provider: prov,
        },
    )
}

/// The tools read from a list of JSON values: those that read as tools, in order.
pub open spec fn decoded_tools(items: Seq<JsonView>) -> Seq<ToolView>
    decreases items.len(),
{
    if items.len() == 0 {
        seq![]
    } else {
        let prefix = decoded_tools(items.drop_last());
        match decode_tool(items.last()) {
            Some(t) => prefix.push(t),
            None => prefix,
        }
    }
}

/// Every element of the list that reads as a tool, in order; the others are skipped.
pub fn tools_from_values(items: &Vec<JsonValue>) -> (r: Vec<Tool>)
    ensures
        tool_views(r@) == decoded_tools(items_view(items@)),
{
    let mut out: Vec<Tool> = Vec::new();
    let mut i: usize = 0;
    while i < items.len()
        invariant
            0 <= i <= items@.len(),
            tool_views(out@) == decoded_tools(items_view(items@).take(i as int)),
        decreases items@.len() - i,
    {
        assert(items_view(items@).take(i + 1).drop_last() =~= items_view(items@).take(i as int));
        match tool_from_json(&items[i]) {
            Some(t) => {
                out.push(t);
                assert(tool_views(out@) =~= tool_views(out@.drop_last()).push(out@.last().view()));
            },
            None => {},
        }
        i = i + 1;
    }
    assert(items_view(items@).take(items@.len() as int) =~= items_view(items@));
    out
}

/// What a manifest lists: when `doc` has a `tools` array, the elements of
/// it that read as tools; otherwise nothing is found.
pub open spec fn manifest_tools(doc: JsonView) -> Option<Seq<ToolView>> {
    match doc.get_array("tools"@) {
        Some(items) => Some(decoded_tools(items)),
        None => None,
    }
}

/// The tools of a manifest document (see `manifest_tools`).
pub fn tools_from_manifest(doc: &JsonValue) -> (r: Option<Vec<Tool>>)
    ensures
        match r {
            Some(ts) => manifest_tools(doc@) == Some(tool_views(ts@)),
            None => manifest_tools(doc@) is None,
        },
{
    match doc.get_array("tools") {
        Some(items) => Some(tools_from_values(items)),
        None => None,
    }
}

/// What a manifest text lists: the tools of the document it parses to, or
/// nothing where it does not parse or holds no `tools` array.
pub open spec fn manifest_text_tools(text: Seq<char>) -> Option<Seq<ToolView>> {
    match crate::json::spec_parse_json(text) {
        Ok(doc) => manifest_tools(doc),
        Err(_) => None,
    }
}

/// The tools listed in a manifest text (see `manifest_text_tools`).
pub fn tools_from_manifest_text(text: &str) -> (r: Option<Vec<Tool>>)
    ensures
        match r {
            Some(ts) => manifest_text_tools(text@) == Some(tool_views(ts@)),
            None => manifest_text_tools(text@) is None,
        },
{
    match crate::json::parse_json(text) {
        Ok(doc) => tools_from_manifest(&doc),
        Err(_) => None,
    }
}

/// The tools listed in a manifest text, or none where it lists no tools.
pub open spec fn manifest_text_tools_or_empty(text: Seq<char>) -> Seq<ToolView> {
    match manifest_text_tools(text) {
        Some(ts) => ts,
        None => seq![],
    }
}

} // verus!
