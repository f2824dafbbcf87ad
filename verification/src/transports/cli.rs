use vstd::prelude::*;
use crate::chars::{
    chars_of, has_prefix, has_suffix, owned, split_char, split_on_char, split_whitespace,
    starts_with, ends_with, trim, trim_chars, trim_end_char, trim_end_matches_char, trim_start_char,
    trim_start_matches_char, trim_str, views, words,
};
use crate::error::{ErrorKind, TransportError};
use crate::json::{
    members_view, parse_json, render_json, spec_parse_json, spec_render_json, JsonValue, JsonView,
};
use crate::providers::CliProvider;
use crate::tools::{
    decode_tool, manifest_tools, tool_from_json, tool_views, tools_from_manifest, Tool, ToolView,
};
use crate::transports::common::ToolArgs;

verus! {

/// Runs tools as command lines: `<command> call <provider> <tool> --flags`,
/// with the arguments also written as JSON to the command's input.
pub struct CliTransport;

// ---------------------------------------------------------------------------
// Ordering of argument names
// ---------------------------------------------------------------------------

/// Lexicographic order of character sequences by code point, the order of
/// `String` (UTF-8 preserves it).
pub open spec fn lex_lt(a: Seq<char>, b: Seq<char>) -> bool
    decreases a.len(),
{
    if a.len() == 0 {
        b.len() > 0
    } else if b.len() == 0 {
        false
    } else if a[0] != b[0] {
        a[0] < b[0]
    } else {
        lex_lt(a.drop_first(), b.drop_first())
    }
}

proof fn lemma_lex_irreflexive(a: Seq<char>)
    ensures
        !lex_lt(a, a),
    decreases a.len(),
{
    if a.len() > 0 {
        lemma_lex_irreflexive(a.drop_first());
    }
}

proof fn lemma_lex_total(a: Seq<char>, b: Seq<char>)
    ensures
        lex_lt(a, b) || lex_lt(b, a) || a == b,
    decreases a.len(),
{
    if a.len() > 0 && b.len() > 0 && a[0] == b[0] {
        lemma_lex_total(a.drop_first(), b.drop_first());
        if a.drop_first() == b.drop_first() {
            assert(a =~= seq![a[0]] + a.drop_first());
            assert(b =~= seq![b[0]] + b.drop_first());
        }
    } else if a.len() == 0 && b.len() == 0 {
        assert(a =~= b);
    } else if a.len() > 0 && b.len() > 0 {
    }
}

proof fn lemma_lex_transitive(a: Seq<char>, b: Seq<char>, c: Seq<char>)
    requires
        lex_lt(a, b),
        lex_lt(b, c),
    ensures
        lex_lt(a, c),
    decreases a.len(),
{
    if a.len() > 0 && b.len() > 0 && c.len() > 0 && a[0] == b[0] && b[0] == c[0] {
        lemma_lex_transitive(a.drop_first(), b.drop_first(), c.drop_first());
    }
}

proof fn lemma_lex_asym(a: Seq<char>, b: Seq<char>)
    requires
        lex_lt(a, b),
    ensures
        !lex_lt(b, a),
{
    if lex_lt(b, a) {
        lemma_lex_transitive(a, b, a);
        lemma_lex_irreflexive(a);
    }
}

/// Whether `a` comes before `b`.
fn lex_less(a: &Vec<char>, b: &Vec<char>) -> (r: bool)
    ensures
        r == lex_lt(a@, b@),
{
    let mut i: usize = 0;
    assert(a@.skip(0) =~= a@);
    assert(b@.skip(0) =~= b@);
    while i < a.len() && i < b.len()
        invariant
            0 <= i <= a@.len(),
            i <= b@.len(),
            forall|j: int| 0 <= j < i ==> a@[j] == b@[j],
            lex_lt(a@, b@) == lex_lt(a@.skip(i as int), b@.skip(i as int)),
        decreases a@.len() - i,
    {
        if a[i] != b[i] {
            assert(a@.skip(i as int)[0] == a@[i as int]);
            assert(b@.skip(i as int)[0] == b@[i as int]);
            return a[i] < b[i];
        }
        assert(a@.skip(i as int).drop_first() =~= a@.skip(i + 1));
        assert(b@.skip(i as int).drop_first() =~= b@.skip(i + 1));
        i = i + 1;
    }
    i < b.len()
}

// ---------------------------------------------------------------------------
// Flags
// ---------------------------------------------------------------------------

/// The flags for one argument: `--name` alone for `true`, nothing for
/// `false`, `--name <item>` for each item of an array (items as JSON text),
/// and `--name <value>` for other values, the JSON text without surrounding
/// double quotes.
pub open spec fn arg_flags(name: Seq<char>, value: JsonView) -> Seq<Seq<char>> {
    let flag = "--"@ + name;
    match value {
        JsonView::Bool(true) => seq![flag],
        JsonView::Bool(false) => seq![],
        JsonView::Array(items) => array_flags(flag, items),
        _ => seq![flag, trim_end_char(trim_start_char(spec_render_json(value), '"'), '"')],
    }
}

/// `flag item` for each item, in order.
pub open spec fn array_flags(flag: Seq<char>, items: Seq<JsonView>) -> Seq<Seq<char>>
    decreases items.len(),
{
    if items.len() == 0 {
        seq![]
    } else {
        array_flags(flag, items.drop_last()) + seq![flag, spec_render_json(items.last())]
    }
}

/// The flags of arguments in the given order.
pub open spec fn flags_in_order(args: Seq<(Seq<char>, JsonView)>) -> Seq<Seq<char>>
    decreases args.len(),
{
    if args.len() == 0 {
        seq![]
    } else {
        flags_in_order(args.drop_last()) + arg_flags(args.last().0, args.last().1)
    }
}

/// Whether `order` lists each argument position exactly once, with names
/// in non-decreasing order.
pub open spec fn sorted_order(args: Seq<(Seq<char>, JsonView)>, order: Seq<int>) -> bool {
    &&& order.len() == args.len()
    &&& order.no_duplicates()
    &&& forall|i: int| 0 <= i < order.len() ==> 0 <= #[trigger] order[i] < args.len()
    &&& forall|i: int, j: int| 0 <= i < j < order.len() ==> !lex_lt(args[order[j]].0, args[order[i]].0)
}

/// The arguments in the order `order` gives.
pub open spec fn permuted(args: Seq<(Seq<char>, JsonView)>, order: Seq<int>) -> Seq<(Seq<char>, JsonView)> {
    order.map_values(|i: int| args[i])
}

/// Whether the names of `p` strictly increase.
pub open spec fn strictly_sorted(p: Seq<(Seq<char>, JsonView)>) -> bool {
    forall|i: int, j: int| 0 <= i < j < p.len() ==> lex_lt(#[trigger] p[i].0, #[trigger] p[j].0)
}

/// Whether no two arguments share a name, as the keys of a map do not.
pub open spec fn distinct_names(args: Seq<(Seq<char>, JsonView)>) -> bool {
    forall|i: int, j: int| 0 <= i < j < args.len() ==> #[trigger] args[i].0 != #[trigger] args[j].0
}

proof fn lemma_order_covers(args: Seq<(Seq<char>, JsonView)>, order: Seq<int>, k: int)
    requires
        sorted_order(args, order),
        0 <= k < args.len(),
    ensures
        order.contains(k),
{
    let n = args.len() as int;
    assert(order.to_set().subset_of(vstd::set_lib::set_int_range(0, n)));
    vstd::set_lib::lemma_int_range(0, n);
    order.unique_seq_to_set();
    vstd::set_lib::lemma_subset_equality(order.to_set(), vstd::set_lib::set_int_range(0, n));
    assert(vstd::set_lib::set_int_range(0, n).contains(k));
}

proof fn lemma_permuted_sorted(args: Seq<(Seq<char>, JsonView)>, order: Seq<int>)
    requires
        distinct_names(args),
        sorted_order(args, order),
    ensures
        strictly_sorted(permuted(args, order)),
        permuted(args, order).to_set() == args.to_set(),
{
    let p = permuted(args, order);
    assert forall|i: int, j: int| 0 <= i < j < p.len() implies lex_lt(#[trigger] p[i].0, #[trigger] p[j].0) by {
        assert(order[i] != order[j]);
        let (a, b) = (order[i], order[j]);
        if a < b {
            assert(args[a].0 != args[b].0);
        } else {
            assert(args[b].0 != args[a].0);
        }
        lemma_lex_total(args[a].0, args[b].0);
    }
    assert forall|x: (Seq<char>, JsonView)| p.to_set().contains(x) <==> args.to_set().contains(x) by {
        if p.to_set().contains(x) {
            let i = choose|i: int| 0 <= i < p.len() && p[i] == x;
            assert(args[order[i]] == x);
        }
        if args.to_set().contains(x) {
            let k = choose|k: int| 0 <= k < args.len() && args[k] == x;
            lemma_order_covers(args, order, k);
            let i = choose|i: int| 0 <= i < order.len() && order[i] == k;
            assert(p[i] == x);
        }
    }
    assert(p.to_set() =~= args.to_set());
}

proof fn lemma_strict_no_duplicates(p: Seq<(Seq<char>, JsonView)>)
    requires
        strictly_sorted(p),
    ensures
        p.no_duplicates(),
{
    assert forall|i: int, j: int| 0 <= i < p.len() && 0 <= j < p.len() && i != j implies p[i] != p[j] by {
        if i < j {
            lemma_lex_irreflexive(p[i].0);
            assert(lex_lt(p[i].0, p[j].0));
        } else {
            lemma_lex_irreflexive(p[j].0);
            assert(lex_lt(p[j].0, p[i].0));
        }
    }
}

proof fn lemma_strict_unique(p1: Seq<(Seq<char>, JsonView)>, p2: Seq<(Seq<char>, JsonView)>)
    requires
        strictly_sorted(p1),
        strictly_sorted(p2),
        p1.to_set() == p2.to_set(),
    ensures
        p1 == p2,
    decreases p1.len(),
{
    lemma_strict_no_duplicates(p1);
    lemma_strict_no_duplicates(p2);
    p1.unique_seq_to_set();
    p2.unique_seq_to_set();
    if p1.len() == 0 {
        assert(p1 =~= p2);
    } else {
        let n = p1.len() as int;
        let (x1, x2) = (p1.last(), p2.last());
        assert(p1.to_set().contains(x1));
        assert(p2.to_set().contains(x2));
        let j = choose|j: int| 0 <= j < n && p2[j] == x1;
        let k = choose|k: int| 0 <= k < n && p1[k] == x2;
        if x1 != x2 {
            assert(j < n - 1 && k < n - 1);
            assert(lex_lt(p2[j].0, p2[n - 1].0));
            assert(lex_lt(p1[k].0, p1[n - 1].0));
            lemma_lex_asym(x1.0, x2.0);
        }
        let (q1, q2) = (p1.drop_last(), p2.drop_last());
        assert forall|x: (Seq<char>, JsonView)| q1.to_set().contains(x) <==> q2.to_set().contains(x) by {
            if q1.to_set().contains(x) {
                let i = choose|i: int| 0 <= i < q1.len() && q1[i] == x;
                assert(p1[i] == x && x != x1);
                assert(p2.to_set().contains(x));
                let m = choose|m: int| 0 <= m < n && p2[m] == x;
                assert(m != n - 1);
                assert(q2[m] == x);
            }
            if q2.to_set().contains(x) {
                let i = choose|i: int| 0 <= i < q2.len() && q2[i] == x;
                assert(p2[i] == x && x != x2);
                assert(p1.to_set().contains(x));
                let m = choose|m: int| 0 <= m < n && p1[m] == x;
                assert(m != n - 1);
                assert(q1[m] == x);
            }
        }
        assert(q1.to_set() =~= q2.to_set());
        lemma_strict_unique(q1, q2);
        assert(p1 =~= q1.push(x1));
        assert(p2 =~= q2.push(x2));
    }
}

/// The flags do not depend on the order the arguments come in: two lists
/// holding the same arguments, with distinct names as a map's keys are,
/// sorted by name give the same arguments in the same order, and so the
/// same flags.
pub proof fn law_flags_ignore_argument_order(
    args1: Seq<(Seq<char>, JsonView)>,
    order1: Seq<int>,
    args2: Seq<(Seq<char>, JsonView)>,
    order2: Seq<int>,
)
    requires
        distinct_names(args1),
        distinct_names(args2),
        args1.to_set() == args2.to_set(),
        sorted_order(args1, order1),
        sorted_order(args2, order2),
    ensures
        permuted(args1, order1) == permuted(args2, order2),
        flags_in_order(permuted(args1, order1)) == flags_in_order(permuted(args2, order2)),
{
    lemma_permuted_sorted(args1, order1);
    lemma_permuted_sorted(args2, order2);
    lemma_strict_unique(permuted(args1, order1), permuted(args2, order2));
}

/// The tools listed one per line: each line that, trimmed, starts with `{`
/// and ends with `}` and reads as a tool.
pub open spec fn line_tools(lines: Seq<Seq<char>>) -> Seq<ToolView>
    decreases lines.len(),
{
    if lines.len() == 0 {
        seq![]
    } else {
        let prefix = line_tools(lines.drop_last());
        let t = trim(lines.last());
        if has_prefix(t, "{"@) && has_suffix(t, "}"@) {
            match spec_parse_json(t) {
                Ok(doc) => match decode_tool(doc) {
                    Some(tool) => prefix.push(tool),
                    None => prefix,
                },
                Err(_) => prefix,
            }
        } else {
            prefix
        }
    }
}

/// The tools a discovery output lists: those of its manifest when it is a
/// JSON document with a `tools` array, else those listed one per line.
pub open spec fn output_tools(output: Seq<char>) -> Seq<ToolView> {
    match spec_parse_json(output) {
        Ok(doc) => match manifest_tools(doc) {
            Some(ts) => ts,
            None => line_tools(split_char(output, '\n')),
        },
        Err(_) => line_tools(split_char(output, '\n')),
    }
}

/// The output a command is judged by: its standard output when it exited
/// with status 0, else its standard error.
pub open spec fn spec_select_output(stdout: Seq<char>, stderr: Seq<char>, exit_code: i32) -> Seq<char> {
    if exit_code == 0 {
        stdout
    } else {
        stderr
    }
}

/// A command is judged by its standard output exactly when it exited with
/// status 0; with any other status, by its standard error.
pub proof fn law_failed_command_reads_stderr(stdout: Seq<char>, stderr: Seq<char>, exit_code: i32)
    ensures
        exit_code == 0 ==> spec_select_output(stdout, stderr, exit_code) == stdout,
        exit_code != 0 ==> spec_select_output(stdout, stderr, exit_code) == stderr,
{
}

/// The result of a call from its output: an empty string for blank output,
/// the JSON document it holds, or else the trimmed text.
pub open spec fn spec_call_result(output: Seq<char>) -> JsonView {
    if trim(output).len() == 0 {
        JsonView::Str(seq![])
    } else {
        match spec_parse_json(output) {
            Ok(v) => v,
            Err(_) => JsonView::Str(trim(output)),
        }
    }
}

impl CliTransport {
    /// A command-line transport.
    pub fn new() -> (r: CliTransport) {
        CliTransport
    }

    /// The program and its leading arguments: the words of the command line,
    /// or the refusal of a line without words.
    pub fn parse_command(&self, command_name: &str) -> (r: Result<(String, Vec<String>), TransportError>)
        ensures
            ({
                let ws = words(command_name@);
                match r {
                    Ok((cmd, rest)) => ws.len() > 0 && cmd@ == ws[0] && views(rest@) == ws.drop_first(),
                    Err(e) => ws.len() == 0 && e.kind == ErrorKind::EmptyCommand && e.message@ == "Empty command name"@,
                }
            }),
    {
        let parts = split_whitespace(command_name);
        if parts.len() == 0 {
            return Err(TransportError::new(ErrorKind::EmptyCommand, "Empty command name"));
        }
        let mut rest: Vec<String> = Vec::new();
        let mut i: usize = 1;
        while i < parts.len()
            invariant
                1 <= i <= parts@.len(),
                views(rest@) == views(parts@).subrange(1, i as int),
            decreases parts@.len() - i,
        {
            let ghost before = views(rest@);
            rest.push(parts[i].clone());
            assert(views(rest@) =~= before.push(parts@[i as int]@));
            assert(views(parts@).subrange(1, i + 1) =~= views(parts@).subrange(1, i as int).push(parts@[i as int]@));
            i = i + 1;
        }
        assert(views(parts@).subrange(1, parts@.len() as int) =~= views(parts@).drop_first());
        assert(views(parts@)[0] == parts@[0]@);
        Ok((parts[0].clone(), rest))
    }

    fn push_arg_flags(out: &mut Vec<String>, name: &str, value: &JsonValue)
        ensures
            views(final(out)@) == views(old(out)@) + arg_flags(name@, value@),
    {
        proof {
            value.lemma_object_view();
        }
        let flag = crate::chars::concat2("--", name);
        let ghost start = views(out@);
        match value {
            JsonValue::Bool(true) => {
                out.push(flag);
                assert(views(out@) =~= start + seq![flag@]);
            },
            JsonValue::Bool(false) => {
                assert(views(out@) =~= start + Seq::<Seq<char>>::empty());
            },
            JsonValue::Array(items) => {
                let ghost iv = crate::json::items_view(items@);
                let mut i: usize = 0;
                assert(iv.take(0) =~= Seq::<JsonView>::empty());
                assert(views(out@) =~= start + array_flags(flag@, iv.take(0)));
                while i < items.len()
                    invariant
                        iv == crate::json::items_view(items@),
                        0 <= i <= items@.len(),
                        views(out@) == start + array_flags(flag@, iv.take(i as int)),
                    decreases items@.len() - i,
                {
                    assert(iv.take(i + 1).drop_last() =~= iv.take(i as int));
                    assert(iv.take(i + 1).last() == items@[i as int]@);
                    let ghost before = views(out@);
                    out.push(flag.clone());
                    out.push(render_json(&items[i]));
                    assert(views(out@) =~= before + seq![flag@, crate::json::spec_render_json(items@[i as int]@)]);
                    i = i + 1;
                }
                assert(iv.take(items@.len() as int) =~= iv);
            },
            _ => {
                let text = render_json(value);
                let tv = chars_of(text.as_str());
                let t1 = trim_start_matches_char(&tv, '"');
                let t2 = trim_end_matches_char(&t1, '"');
                out.push(flag);
                out.push(crate::chars::string_from_chars(t2.as_slice()));
                assert(views(out@) =~= start + arg_flags(name@, value@));
            },
        }
    }

    /// The positions of the arguments sorted by name.
    fn sorted_positions(args: &ToolArgs) -> (r: Vec<usize>)
        ensures
            sorted_order(members_view(args@), r@.map_values(|i: usize| i as int)),
    {
        let ghost av = members_view(args@);
        let mut keys: Vec<Vec<char>> = Vec::new();
        let mut k: usize = 0;
        while k < args.len()
            invariant
                av == members_view(args@),
                0 <= k <= args@.len(),
                keys@.len() == k,
                forall|j: int| 0 <= j < k ==> (#[trigger] keys@[j])@ == av[j].0,
            decreases args@.len() - k,
        {
            keys.push(chars_of(args[k].0.as_str()));
            k = k + 1;
        }
        let mut order: Vec<usize> = Vec::new();
        let mut i: usize = 0;
        while i < args.len()
            invariant
                av == members_view(args@),
                keys@.len() == args@.len(),
                forall|j: int| 0 <= j < keys@.len() ==> (#[trigger] keys@[j])@ == av[j].0,
                0 <= i <= args@.len(),
                order@.len() == i,
                order@.no_duplicates(),
                forall|a: int| 0 <= a < order@.len() ==> #[trigger] order@[a] < i,
                forall|a: int, b: int| 0 <= a < b < order@.len() ==> !lex_lt(av[order@[b] as int].0, av[order@[a] as int].0),
            decreases args@.len() - i,
        {
            // The new position goes after every name not greater than its own.
            let mut pos: usize = 0;
            while pos < order.len() && !lex_less(&keys[i], &keys[order[pos]])
                invariant
                    keys@.len() == args@.len(),
                    i < keys@.len(),
                    forall|a: int| 0 <= a < order@.len() ==> #[trigger] order@[a] < i,
                    0 <= pos <= order@.len(),
                    forall|a: int| 0 <= a < pos ==> !lex_lt(keys@[i as int]@, keys@[order@[a] as int]@),
                decreases order@.len() - pos,
            {
                pos = pos + 1;
            }
            let ghost old_order = order@;
            proof {
                // Everything at or after `pos` is greater than the new name.
                assert forall|a: int| pos <= a < old_order.len() implies lex_lt(av[i as int].0, av[old_order[a] as int].0) by {
                    let kp = av[old_order[pos as int] as int].0;
                    let ka = av[old_order[a] as int].0;
                    let ki = av[i as int].0;
                    assert(keys@[old_order[pos as int] as int]@ == kp);
                    assert(keys@[i as int]@ == ki);
                    assert(lex_lt(ki, kp));
                    if a > pos {
                        assert(!lex_lt(ka, kp));
                        lemma_lex_total(kp, ka);
                        if kp != ka {
                            lemma_lex_transitive(ki, kp, ka);
                        }
                    }
                }
                assert forall|a: int| 0 <= a < pos implies !lex_lt(av[i as int].0, av[old_order[a] as int].0) by {
                    assert(keys@[old_order[a] as int]@ == av[old_order[a] as int].0);
                    assert(keys@[i as int]@ == av[i as int].0);
                }
            }
            order.insert(pos, i);
            proof {
                let no = order@;
                assert(no == old_order.insert(pos as int, i));
                assert forall|a: int| 0 <= a < no.len() implies #[trigger] no[a] < i + 1 by {
                    if a < pos {
                        assert(no[a] == old_order[a]);
                    } else if a > pos {
                        assert(no[a] == old_order[a - 1]);
                    }
                }
                assert forall|a: int, b: int| 0 <= a < b < no.len() implies no[a] != no[b] by {
                    let a2 = if a < pos { a } else { a - 1 };
                    let b2 = if b < pos { b } else { b - 1 };
                    if a != pos && b != pos {
                        assert(no[a] == old_order[a2]);
                        assert(no[b] == old_order[b2]);
                    } else if a == pos {
                        assert(no[b] == old_order[b2]);
                    } else {
                        assert(no[a] == old_order[a2]);
                    }
                }
                assert forall|a: int, b: int| 0 <= a < b < no.len() implies !lex_lt(av[no[b] as int].0, av[no[a] as int].0) by {
                    let a2 = if a < pos { a } else { a - 1 };
                    let b2 = if b < pos { b } else { b - 1 };
                    if a != pos && b != pos {
                        assert(no[a] == old_order[a2]);
                        assert(no[b] == old_order[b2]);
                    } else if a == pos {
                        assert(no[b] == old_order[b2]);
                        assert(b2 >= pos);
                        lemma_lex_asym(av[i as int].0, av[old_order[b2] as int].0);
                    } else {
                        assert(no[a] == old_order[a2]);
                    }
                }
            }
            i = i + 1;
        }
        proof {
            let m = order@.map_values(|x: usize| x as int);
            assert forall|a: int, b: int| 0 <= a < b < m.len() implies m[a] != m[b] by {
                assert(order@[a] != order@[b]);
            }
        }
        order
    }

    /// The command-line flags for the arguments, taken in order of their
    /// names (see `arg_flags`).
    pub fn format_arguments(&self, args: &ToolArgs) -> (r: Vec<String>)
        ensures
            exists|order: Seq<int>|
                sorted_order(members_view(args@), order) && views(r@) == flags_in_order(
                    permuted(members_view(args@), order),
                ),
    {
        let ghost av = members_view(args@);
        let order = Self::sorted_positions(args);
        let ghost ord = order@.map_values(|i: usize| i as int);
        let mut out: Vec<String> = Vec::new();
        let mut i: usize = 0;
        assert(permuted(av, ord).take(0) =~= Seq::<(Seq<char>, JsonView)>::empty());
        assert(views(out@) =~= Seq::<Seq<char>>::empty());
        while i < order.len()
            invariant
                av == members_view(args@),
                ord == order@.map_values(|i: usize| i as int),
                sorted_order(av, ord),
                0 <= i <= order@.len(),
                views(out@) == flags_in_order(permuted(av, ord).take(i as int)),
            decreases order@.len() - i,
        {
            let p = order[i];
            assert(ord[i as int] == p as int);
            assert(0 <= ord[i as int] < av.len());
            assert(permuted(av, ord).take(i + 1).drop_last() =~= permuted(av, ord).take(i as int));
            assert(permuted(av, ord).take(i + 1).last() == av[p as int]);
            Self::push_arg_flags(&mut out, args[p].0.as_str(), &args[p].1);
            i = i + 1;
        }
        assert(permuted(av, ord).take(order@.len() as int) =~= permuted(av, ord));
        out
    }

    fn tools_from_lines(output: &str) -> (r: Vec<Tool>)
        ensures
            tool_views(r@) == line_tools(split_char(output@, '\n')),
    {
        let lines = split_on_char(output, '\n');
        let ghost lv = views(lines@);
        let mut out: Vec<Tool> = Vec::new();
        let mut i: usize = 0;
        assert(lv.take(0) =~= Seq::<Seq<char>>::empty());
        assert(tool_views(out@) =~= Seq::<ToolView>::empty());
        let open = chars_of("{");
        let close = chars_of("}");
        while i < lines.len()
            invariant
                lv == views(lines@),
                open@ == "{"@,
                close@ == "}"@,
                0 <= i <= lines@.len(),
                tool_views(out@) == line_tools(lv.take(i as int)),
            decreases lines@.len() - i,
        {
            assert(lv.take(i + 1).drop_last() =~= lv.take(i as int));
            assert(lv.take(i + 1).last() == lines@[i as int]@);
            let t = trim_chars(&chars_of(lines[i].as_str()));
            if starts_with(&t, &open) && ends_with(&t, &close) {
                let ts = crate::chars::string_from_chars(t.as_slice());
                match parse_json(ts.as_str()) {
                    Ok(doc) => match tool_from_json(&doc) {
                        Some(tool) => {
                            let ghost before = tool_views(out@);
                            out.push(tool);
                            assert(tool_views(out@) =~= before.push(tool.view()));
                        },
                        None => {},
                    },
                    Err(_) => {},
                }
            }
            i = i + 1;
        }
        assert(lv.take(lines@.len() as int) =~= lv);
        out
    }

    /// The tools a discovery output lists (see `output_tools`).
    pub fn extract_tools_from_output(&self, output: &str) -> (r: Vec<Tool>)
        ensures
            tool_views(r@) == output_tools(output@),
    {
        match parse_json(output) {
            Ok(doc) => match tools_from_manifest(&doc) {
                Some(ts) => ts,
                None => Self::tools_from_lines(output),
            },
            Err(_) => Self::tools_from_lines(output),
        }
    }

    /// The output a command is judged by (see `spec_select_output`).
    pub fn select_output(stdout: String, stderr: String, exit_code: i32) -> (r: String)
        ensures
            r@ == spec_select_output(stdout@, stderr@, exit_code),
    {
        if exit_code == 0 {
            stdout
        } else {
            stderr
        }
    }

    /// The tools found on registration: none for blank output, else those
    /// the output lists.
    pub fn tools_from_discovery(&self, output: &str) -> (r: Vec<Tool>)
        ensures
            tool_views(r@) == (if trim(output@).len() == 0 {
                Seq::<ToolView>::empty()
            } else {
                output_tools(output@)
            }),
    {
        let t = trim_str(output);
        if t.as_str().is_empty() {
            let e: Vec<Tool> = Vec::new();
            assert(tool_views(e@) =~= Seq::<ToolView>::empty());
            return e;
        }
        self.extract_tools_from_output(output)
    }

    /// The result of a call from its output (see `spec_call_result`).
    pub fn call_result(output: &str) -> (r: JsonValue)
        ensures
            r@ == spec_call_result(output@),
    {
        let t = trim_str(output);
        if t.as_str().is_empty() {
            proof {
                reveal_strlit("");
                assert(""@ =~= Seq::<char>::empty());
            }
            return JsonValue::from_str("");
        }
        match parse_json(output) {
            Ok(v) => v,
            Err(_) => JsonValue::Str(t),
        }
    }

    /// The arguments after the program for calling `tool_name` with `args`:
    /// the command's own leading arguments, `call`, the provider's name, the
    /// tool's name, then the flags of `format_arguments`.
    pub fn call_arguments(&self, prov: &CliProvider, tool_name: &str, args: &ToolArgs) -> (r: Result<(String, Vec<String>), TransportError>)
        ensures
            ({
                let ws = words(prov.command_name@);
                match r {
                    Ok((cmd, argv)) => ws.len() > 0 && cmd@ == ws[0] && exists|order: Seq<int>|
                        sorted_order(members_view(args@), order) && views(argv@) == ws.drop_first()
                            + seq!["call"@, prov.base.name@, tool_name@] + flags_in_order(
                            permuted(members_view(args@), order),
                        ),
                    Err(e) => ws.len() == 0 && e.kind == ErrorKind::EmptyCommand && e.message@ == "Empty command name"@,
                }
            }),
    {
        let (cmd, mut argv) = match self.parse_command(prov.command_name.as_str()) {
            Ok(p) => p,
            Err(e) => return Err(e),
        };
        let ghost lead = views(argv@);
        argv.push(owned("call"));
        argv.push(prov.base.name.clone());
        argv.push(owned(tool_name));
        let ghost mid = views(argv@);
        assert(mid =~= lead + seq!["call"@, prov.base.name@, tool_name@]);
        let mut flags = self.format_arguments(args);
        let ghost fv = views(flags@);
        argv.append(&mut flags);
        assert(views(argv@) =~= mid + fv);
        Ok((cmd, argv))
    }

    /// The input written to the command on a call: the arguments as JSON text.
    pub fn call_input(&self, args: &ToolArgs) -> (r: String)
        ensures
            r@ == spec_render_json(JsonView::Object(members_view(args@))),
    {
        render_json(&crate::transports::common::args_object(args))
    }

    /// The refusal to stream.
    pub fn call_tool_stream(&self) -> (r: TransportError)
        ensures
            r.kind == ErrorKind::StreamingUnsupported,
            r.message@ == "Streaming not supported by CliTransport"@,
    {
        TransportError::new(ErrorKind::StreamingUnsupported, "Streaming not supported by CliTransport")
    }
}

} // verus!
