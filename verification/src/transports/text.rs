use vstd::prelude::*;
use crate::chars::{concat2, concat3, owned, spec_utf8_lossy, utf8_lossy};
use crate::error::{ErrorKind, TransportError};
use crate::json::{
    members_view, render_json, spec_parse_json, spec_render_json, JsonValue, JsonView,
};
use crate::providers::TextProvider;
use crate::tools::{
    decode_tool, manifest_text_tools_or_empty, opt_str_view, tool_from_json, tool_views,
    tools_from_manifest_text, Tool, ToolView,
};
use crate::transports::common::{args_object, json_or_text, parse_or_string, ToolArgs};

verus! {

/// Loads tools from a directory and runs them as local scripts.
pub struct TextTransport {
    pub base_path: Option<String>,
}

/// How a tool script is run.
#[derive(PartialEq, Eq, Structural, Clone, Copy, Debug)]
pub enum ScriptKind {
    /// Run directly.
    Executable,
    /// Run by `node`.
    Node,
    /// Run by `bash`.
    Bash,
    /// Run by `python3`.
    Python,
}

/// A script to run: its kind and path.
#[derive(Clone, Debug, PartialEq)]
pub struct Script {
    pub kind: ScriptKind,
    pub path: String,
}

/// What running a tool takes: the script's kind and path, the program,
/// and its arguments.
#[derive(Clone, Debug, PartialEq)]
pub struct TextCallPlan {
    pub kind: ScriptKind,
    pub script_path: String,
    pub program: String,
    pub args: Vec<String>,
}

/// What `std::path::Path::join` gives for a base and a relative part, as
/// text (the platform's rules for separators and absolute parts).
pub uninterp spec fn spec_path_join(base: Seq<char>, name: Seq<char>) -> Seq<char>;

/// Wraps `std::path::Path::join`: the path of `name` under `base`, as text.
/// The result is named by `spec_path_join`.
#[verifier::external_body]
fn path_join(base: &str, name: &str) -> (r: String)
    ensures
        r@ == spec_path_join(base@, name@),
{
    std::path::Path::new(base).join(name).to_string_lossy().into_owned()
}

/// Wraps `std::path::Path::exists`: whether something is at the path when
/// asked.  Nothing is stated of the answer, which depends on the file system.
#[verifier::external_body]
fn path_exists(path: &str) -> (r: bool) {
    std::path::Path::new(path).exists()
}

/// The script names tried for a tool, in order: the name itself (run
/// directly), then with `.js` (node), `.sh` (bash) and `.py` (python3).
pub open spec fn script_names(tool: Seq<char>) -> Seq<(ScriptKind, Seq<char>)> {
    seq![
        (ScriptKind::Executable, tool),
        (ScriptKind::Node, tool + ".js"@),
        (ScriptKind::Bash, tool + ".sh"@),
        (ScriptKind::Python, tool + ".py"@),
    ]
}

/// The candidate scripts for a tool under a base directory, in order.
pub open spec fn spec_candidates(base: Seq<char>, tool: Seq<char>) -> Seq<(ScriptKind, Seq<char>)> {
    script_names(tool).map_values(
        |c: (ScriptKind, Seq<char>)| (c.0, spec_path_join(base, c.1)),
    )
}

/// The model of a script.
pub open spec fn script_view(s: Script) -> (ScriptKind, Seq<char>) {
    (s.kind, s.path@)
}

/// The first candidate whose flag says it is present.
pub open spec fn first_present(cands: Seq<(ScriptKind, Seq<char>)>, present: Seq<bool>) -> Option<(ScriptKind, Seq<char>)>
    decreases cands.len(),
{
    if cands.len() == 0 || present.len() == 0 {
        None
    } else if present[0] {
        Some(cands[0])
    } else {
        first_present(cands.drop_first(), present.drop_first())
    }
}

/// The answers of asking, in order, whether each of `n` candidates is
/// present and stopping at the first that is: every answer but the last is
/// "absent", and the asking stops early only at a "present".
pub open spec fn probe_answers(present: Seq<bool>, n: nat) -> bool {
    &&& present.len() <= n
    &&& forall|i: int| 0 <= i < present.len() - 1 ==> !#[trigger] present[i]
    &&& present.len() < n ==> present.len() > 0 && present.last()
}

/// The first candidate is found where all before it are absent.
proof fn lemma_first_present(cands: Seq<(ScriptKind, Seq<char>)>, present: Seq<bool>, i: int)
    requires
        0 <= i < cands.len(),
        present.len() == i + 1,
        present[i],
        forall|j: int| 0 <= j < i ==> !present[j],
    ensures
        first_present(cands, present) == Some(cands[i]),
    decreases i,
{
    if i > 0 {
        lemma_first_present(cands.drop_first(), present.drop_first(), i - 1);
    }
}

/// The command that runs a script with the arguments' JSON text: node,
/// bash or python3 with the script's path first, or the script itself.
pub open spec fn spec_command(kind: ScriptKind, path: Seq<char>, args_json: Seq<char>) -> (Seq<char>, Seq<Seq<char>>) {
    match kind {
        ScriptKind::Node => ("node"@, seq![path, args_json]),
        ScriptKind::Bash => ("bash"@, seq![path, args_json]),
        ScriptKind::Python => ("python3"@, seq![path, args_json]),
        ScriptKind::Executable => (path, seq![args_json]),
    }
}

/// The tools of a tools file whose text is a JSON array of which every
/// element reads as a tool.
pub open spec fn all_tools(items: Seq<JsonView>) -> Option<Seq<ToolView>>
    decreases items.len(),
{
    if items.len() == 0 {
        Some(seq![])
    } else {
        match (all_tools(items.drop_last()), decode_tool(items.last())) {
            (Some(ts), Some(t)) => Some(ts.push(t)),
            _ => None,
        }
    }
}

/// The tools a tools file lists: all of an array of tools; failing that,
/// those of a manifest; otherwise none.
pub open spec fn file_tools(text: Seq<char>) -> Seq<ToolView> {
    let as_array = match spec_parse_json(text) {
        Ok(JsonView::Array(items)) => all_tools(items),
        _ => None,
    };
    match as_array {
        Some(ts) => ts,
        None => manifest_text_tools_or_empty(text),
    }
}

/// The outcome of a script run: on success, the JSON of its output, or the
/// output itself as a string; on failure, `Tool execution failed (<path>):
/// <error output>`.  Output bytes are read as text with invalid sequences
/// replaced.
pub open spec fn spec_run_result(path: Seq<char>, success: bool, stdout: Seq<u8>, stderr: Seq<u8>) -> Result<JsonView, Seq<char>> {
    if success {
        Ok(json_or_text(spec_utf8_lossy(stdout)))
    } else {
        Err("Tool execution failed ("@ + path + "): "@ + spec_utf8_lossy(stderr))
    }
}

/// The model of an optional script.
pub open spec fn opt_script_view(r: Option<Script>) -> Option<(ScriptKind, Seq<char>)> {
    match r {
        Some(s) => Some(script_view(s)),
        None => None,
    }
}

/// The base directory a call uses: the text provider's own, if it names
/// one, else the transport's.
pub open spec fn spec_base_path(own: Option<String>, prov: Option<&TextProvider>) -> Option<Seq<char>> {
    match prov {
        Some(p) => match p.base_path {
            Some(b) => Some(b@),
            None => opt_str_view(own),
        },
        None => opt_str_view(own),
    }
}

/// The plan of a call, given which candidate scripts were found present
/// (in candidate order): refused without a base directory; refused when no
/// candidate is present; otherwise the first present candidate, run by
/// `spec_command` with the arguments' JSON text.  Gives the script's kind
/// and path, the program and its arguments, or the error's kind and message.
pub open spec fn spec_call_plan(base: Option<Seq<char>>, tool: Seq<char>, args_json: Seq<char>, present: Seq<bool>) -> Result<(ScriptKind, Seq<char>, Seq<char>, Seq<Seq<char>>), (ErrorKind, Seq<char>)> {
    match base {
        None => Err(
            (
                ErrorKind::MissingConfiguration,
                "Text transport requires base_path configuration to execute tools"@,
            ),
        ),
        Some(b) => match first_present(spec_candidates(b, tool), present) {
            None => Err((ErrorKind::ScriptNotFound, "Tool script not found for '"@ + tool + "'"@)),
            Some((k, p)) => Ok((k, p, spec_command(k, p, args_json).0, spec_command(k, p, args_json).1)),
        },
    }
}

/// The model of a planned call, or of its refusal.
pub open spec fn plan_outcome(r: Result<TextCallPlan, TransportError>) -> Result<(ScriptKind, Seq<char>, Seq<char>, Seq<Seq<char>>), (ErrorKind, Seq<char>)> {
    match r {
        Ok(p) => Ok((p.kind, p.script_path@, p.program@, crate::chars::views(p.args@))),
        Err(e) => Err((e.kind, e.message@)),
    }
}

impl TextTransport {
    /// A text transport without a base directory of its own.
    pub fn new() -> (r: TextTransport)
        ensures
            r.base_path is None,
    {
        TextTransport { base_path: None }
    }

    /// This transport with `path` as its base directory.
    pub fn with_base_path(self, path: String) -> (r: TextTransport)
        ensures
            opt_str_view(r.base_path) == Some(path@),
    {
        TextTransport { base_path: Some(path) }
    }

    /// The base directory used for a provider: the text provider's own, if
    /// it names one, else the transport's.
    pub fn base_path_for(&self, prov: Option<&TextProvider>) -> (r: Option<String>)
        ensures
            opt_str_view(r) == match prov {
                Some(p) => match p.base_path {
                    Some(b) => Some(b@),
                    None => opt_str_view(self.base_path),
                },
                None => opt_str_view(self.base_path),
            },
    {
        match prov {
            Some(p) => match &p.base_path {
                Some(b) => return Some(b.clone()),
                None => {},
            },
            None => {},
        }
        match &self.base_path {
            Some(b) => Some(b.clone()),
            None => None,
        }
    }

    /// The path of the tools file under a base directory.
    pub fn tools_file(&self, base_path: &str) -> (r: String)
        ensures
            r@ == spec_path_join(base_path@, "tools.json"@),
    {
        path_join(base_path, "tools.json")
    }

    /// The candidate scripts for a tool (see `spec_candidates`).
    pub fn script_candidates(&self, base_path: &str, tool_name: &str) -> (r: Vec<Script>)
        ensures
            r@.map_values(|s: Script| script_view(s)) == spec_candidates(base_path@, tool_name@),
    {
        let mut out: Vec<Script> = Vec::new();
        let n1 = owned(tool_name);
        let n2 = concat2(tool_name, ".js");
        let n3 = concat2(tool_name, ".sh");
        let n4 = concat2(tool_name, ".py");
        out.push(Script { kind: ScriptKind::Executable, path: path_join(base_path, n1.as_str()) });
        out.push(Script { kind: ScriptKind::Node, path: path_join(base_path, n2.as_str()) });
        out.push(Script { kind: ScriptKind::Bash, path: path_join(base_path, n3.as_str()) });
        out.push(Script { kind: ScriptKind::Python, path: path_join(base_path, n4.as_str()) });
        assert(out@.map_values(|s: Script| script_view(s)) =~= spec_candidates(base_path@, tool_name@));
        out
    }

    /// The first candidate marked present (see `first_present`).
    pub fn pick_script(&self, cands: Vec<Script>, present: &Vec<bool>) -> (r: Option<Script>)
        ensures
            match r {
                Some(s) => first_present(cands@.map_values(|c: Script| script_view(c)), present@) == Some(script_view(s)),
                None => first_present(cands@.map_values(|c: Script| script_view(c)), present@) is None,
            },
    {
        let ghost cv = cands@.map_values(|c: Script| script_view(c));
        let mut i: usize = 0;
        let n = if cands.len() < present.len() {
            cands.len()
        } else {
            present.len()
        };
        assert(cv.skip(0) =~= cv);
        assert(present@.skip(0) =~= present@);
        while i < n
            invariant
                n <= cands@.len(),
                n <= present@.len(),
                cv == cands@.map_values(|c: Script| script_view(c)),
                0 <= i <= n,
                first_present(cv, present@) == first_present(cv.skip(i as int), present@.skip(i as int)),
            decreases n - i,
        {
            assert(cv.skip(i as int).drop_first() =~= cv.skip(i + 1));
            assert(present@.skip(i as int).drop_first() =~= present@.skip(i + 1));
            if present[i] {
                let mut cands = cands;
                let s = cands.swap_remove(i);
                return Some(s);
            }
            i = i + 1;
        }
        None
    }

    /// Asks the file system, candidate by candidate, whether the script is
    /// there, stopping at the first that is: the answers, in order.
    fn probe(cands: &Vec<Script>) -> (present: Vec<bool>)
        ensures
            probe_answers(present@, cands@.len()),
    {
        let mut present: Vec<bool> = Vec::new();
        let mut i: usize = 0;
        while i < cands.len()
            invariant
                0 <= i <= cands@.len(),
                present@.len() == i,
                forall|j: int| 0 <= j < i ==> !#[trigger] present@[j],
            decreases cands@.len() - i,
        {
            let found = path_exists(cands[i].path.as_str());
            present.push(found);
            if found {
                return present;
            }
            i = i + 1;
        }
        present
    }

    /// The script that runs a tool: the first candidate (see
    /// `spec_candidates`) that the file system reports present, asking in
    /// candidate order.  Which candidates are present depends on the file
    /// system; the result is the first present one for the answers given.
    pub fn resolve_script(&self, base_path: &str, tool_name: &str) -> (r: Option<Script>)
        ensures
            exists|present: Seq<bool>|
                probe_answers(present, 4) && opt_script_view(r) == #[trigger] first_present(
                    spec_candidates(base_path@, tool_name@),
                    present,
                ),
    {
        let cands = self.script_candidates(base_path, tool_name);
        let present = Self::probe(&cands);
        let r = self.pick_script(cands, &present);
        assert(opt_script_view(r) == first_present(spec_candidates(base_path@, tool_name@), present@));
        r
    }

    /// The command that runs a script (see `spec_command`).
    pub fn build_command(&self, kind: ScriptKind, script_path: &str, args_json: &str) -> (r: (String, Vec<String>))
        ensures
            (r.0@, crate::chars::views(r.1@)) == spec_command(kind, script_path@, args_json@),
    {
        let mut args: Vec<String> = Vec::new();
        let program = match kind {
            ScriptKind::Node => {
                args.push(owned(script_path));
                owned("node")
            },
            ScriptKind::Bash => {
                args.push(owned(script_path));
                owned("bash")
            },
            ScriptKind::Python => {
                args.push(owned(script_path));
                owned("python3")
            },
            ScriptKind::Executable => owned(script_path),
        };
        args.push(owned(args_json));
        assert(crate::chars::views(args@) =~= spec_command(kind, script_path@, args_json@).1);
        (program, args)
    }

    /// The arguments as JSON text, as a script receives them.
    pub fn args_json(&self, args: &ToolArgs) -> (r: String)
        ensures
            r@ == spec_render_json(JsonView::Object(members_view(args@))),
    {
        render_json(&args_object(args))
    }

    /// What running `tool_name` takes, given which candidate scripts are
    /// present (see `spec_call_plan`).
    pub fn call_plan_for(&self, prov: Option<&TextProvider>, tool_name: &str, args: &ToolArgs, present: &Vec<bool>) -> (r: Result<TextCallPlan, TransportError>)
        ensures
            plan_outcome(r) == spec_call_plan(
                spec_base_path(self.base_path, prov),
                tool_name@,
                spec_render_json(JsonView::Object(members_view(args@))),
                present@,
            ),
    {
        let base = match self.base_path_for(prov) {
            Some(b) => b,
            None => return Err(TransportError::new(ErrorKind::MissingConfiguration, "Text transport requires base_path configuration to execute tools")),
        };
        let cands = self.script_candidates(base.as_str(), tool_name);
        let script = match self.pick_script(cands, present) {
            Some(s) => s,
            None => return Err(TransportError::with_message(ErrorKind::ScriptNotFound, concat3("Tool script not found for '", tool_name, "'"))),
        };
        let json = self.args_json(args);
        let (program, cmd_args) = self.build_command(script.kind, script.path.as_str(), json.as_str());
        Ok(TextCallPlan { kind: script.kind, script_path: script.path, program, args: cmd_args })
    }

    /// What running `tool_name` takes: the base directory (the provider's
    /// or the transport's; refused when there is none), the first candidate
    /// script the file system reports present (refused when none is), and
    /// the command that runs it with the arguments' JSON text.  Which
    /// candidates are present depends on the file system; the plan is
    /// `spec_call_plan` for the answers given.
    pub fn call_plan(&self, prov: Option<&TextProvider>, tool_name: &str, args: &ToolArgs) -> (r: Result<TextCallPlan, TransportError>)
        ensures
            exists|present: Seq<bool>|
                probe_answers(present, 4) && plan_outcome(r) == #[trigger] spec_call_plan(
                    spec_base_path(self.base_path, prov),
                    tool_name@,
                    spec_render_json(JsonView::Object(members_view(args@))),
                    present,
                ),
    {
        // Without a base directory nothing is asked; the plan is refused
        // whatever the answers would have been.
        let (present, Ghost(answers)) = match self.base_path_for(prov) {
            Some(b) => {
                let cands = self.script_candidates(b.as_str(), tool_name);
                let p = Self::probe(&cands);
                let ghost g = p@;
                (p, Ghost(g))
            },
            None => {
                let ghost g = seq![false, false, false, false];
                (Vec::new(), Ghost(g))
            },
        };
        let r = self.call_plan_for(prov, tool_name, args, &present);
        proof {
            let base = spec_base_path(self.base_path, prov);
            let json = spec_render_json(JsonView::Object(members_view(args@)));
            assert(probe_answers(answers, 4));
            assert(spec_call_plan(base, tool_name@, json, answers) == spec_call_plan(base, tool_name@, json, present@));
            assert(plan_outcome(r) == spec_call_plan(base, tool_name@, json, answers));
        }
        r
    }

    fn all_tools_of(items: &Vec<JsonValue>) -> (r: Option<Vec<Tool>>)
        ensures
            match r {
                Some(ts) => all_tools(crate::json::items_view(items@)) == Some(tool_views(ts@)),
                None => all_tools(crate::json::items_view(items@)) is None,
            },
    {
        let ghost iv = crate::json::items_view(items@);
        let mut out: Vec<Tool> = Vec::new();
        let mut i: usize = 0;
        assert(tool_views(out@) =~= Seq::<ToolView>::empty());
        while i < items.len()
            invariant
                iv == crate::json::items_view(items@),
                0 <= i <= items@.len(),
                all_tools(iv.take(i as int)) == Some(tool_views(out@)),
            decreases items@.len() - i,
        {
            assert(iv.take(i + 1).drop_last() =~= iv.take(i as int));
            match tool_from_json(&items[i]) {
                Some(t) => {
                    out.push(t);
                    assert(tool_views(out@) =~= tool_views(out@.drop_last()).push(out@.last().view()));
                },
                None => {
                    proof {
                        lemma_all_tools_fail(iv, i as int + 1);
                    }
                    return None;
                },
            }
            i = i + 1;
        }
        assert(iv.take(items@.len() as int) =~= iv);
        Some(out)
    }

    /// The tools a tools file lists (see `file_tools`).
    pub fn tools_from_file_contents(&self, contents: &str) -> (r: Vec<Tool>)
        ensures
            tool_views(r@) == file_tools(contents@),
    {
        let parsed = crate::json::parse_json(contents);
        match &parsed {
            Ok(v) => {
                proof {
                    v.lemma_object_view();
                }
                match v {
                    JsonValue::Array(items) => match Self::all_tools_of(items) {
                        Some(ts) => return ts,
                        None => {},
                    },
                    _ => {},
                }
            },
            Err(_) => {},
        }
        match tools_from_manifest_text(contents) {
            Some(ts) => ts,
            None => {
                let e: Vec<Tool> = Vec::new();
                assert(tool_views(e@) =~= Seq::<ToolView>::empty());
                e
            },
        }
    }

    /// The outcome of running a script (see `spec_run_result`).
    pub fn run_result(&self, script_path: &str, success: bool, stdout: &[u8], stderr: &[u8]) -> (r: Result<JsonValue, TransportError>)
        ensures
            match r {
                Ok(v) => spec_run_result(script_path@, success, stdout@, stderr@) == Ok::<JsonView, Seq<char>>(v@),
                Err(e) => e.kind == ErrorKind::ToolFailed
                    && spec_run_result(script_path@, success, stdout@, stderr@) == Err::<JsonView, Seq<char>>(e.message@),
            },
    {
        if success {
            let out = utf8_lossy(stdout);
            Ok(parse_or_string(out.as_str()))
        } else {
            let err = utf8_lossy(stderr);
            let head = concat3("Tool execution failed (", script_path, "): ");
            Err(TransportError::with_message(ErrorKind::ToolFailed, concat2(head.as_str(), err.as_str())))
        }
    }

    /// The refusal to stream: a script gives one result.
    pub fn call_tool_stream(&self) -> (r: TransportError)
        ensures
            r.kind == ErrorKind::StreamingUnsupported,
            r.message@ == "Streaming not supported by Text transport"@,
    {
        TransportError::new(ErrorKind::StreamingUnsupported, "Streaming not supported by Text transport")
    }
}

/// Once a prefix of the items fails to read as tools, so do all of them.
proof fn lemma_all_tools_fail(items: Seq<JsonView>, k: int)
    requires
        0 <= k <= items.len(),
        all_tools(items.take(k)) is None,
    ensures
        all_tools(items) is None,
    decreases items.len() - k,
{
    if k < items.len() {
        assert(items.take(k + 1).drop_last() =~= items.take(k));
        lemma_all_tools_fail(items, k + 1);
    } else {
        assert(items.take(k) =~= items);
    }
}

} // verus!
