//! Properties that relate several calls or hold of every input, proved over
//! the models that the executable functions are verified against.
use vstd::prelude::*;
use crate::command::CommandDef;
use crate::context::{lookup, lookup_from, Context};
use crate::dispatch::{
    child_from, child_token_from, dispatch_from, help_from, is_help_marker, token_from, Selected,
};
use crate::error::{ErrorKind, KoralError};
use crate::flag::{FlagDef, FlagValueView};
use crate::model::{
    consume, env_lookup, find_long_from, find_short_from, initial_state, is_long_token,
    is_short_token, long_parts, plan_from, provided, push_positional, resolve,
    apply_plan, resolve_args, scan_from, set_slot, slot_entries, slot_value, resolve_slot, is_delimiter, token_step, tokenize, violation_from, Failure, Rejections, Plan, ScanState, SlotView,
};
use crate::parser::parsed_as;
use crate::text::{find_char, find_char_from, is_number};

verus! {

/// Parsing the same tokens twice, with the same catalog, mode and
/// environment, gives the same flags and positionals, or the same error.
pub proof fn lemma_parse_idempotent(
    cat: Seq<FlagDef>,
    strict: bool,
    ignore_required: bool,
    env: Seq<(Seq<char>, Seq<char>)>,
    toks: Seq<Seq<char>>,
    first: Result<Context, KoralError>,
    second: Result<Context, KoralError>,
)
    requires
        parsed_as(cat, strict, ignore_required, env, toks, first),
        parsed_as(cat, strict, ignore_required, env, toks, second),
    ensures
        first is Ok <==> second is Ok,
        first matches Ok(a) ==> (second matches Ok(b) && a.flags.spec_entries() == b.flags.spec_entries()
            && a.args.deep_view() == b.args.deep_view()),
        first matches Err(a) ==> (second matches Err(b) && a.spec_kind() == b.spec_kind()
            && a.spec_message() == b.spec_message()),
{
}

/// A value flag's payload comes from the tokens if they give one, else from
/// its environment variable if declared and set, else from its default.
pub proof fn lemma_provider_precedence(
    cat: Seq<FlagDef>,
    env: Seq<(Seq<char>, Seq<char>)>,
    from_tokens: Seq<SlotView>,
    k: int,
)
    requires
        0 <= k < cat.len(),
        from_tokens.len() == cat.len(),
        cat[k].takes_value,
    ensures
        from_tokens[k] is Some ==> resolve(cat, env, from_tokens)[k] == from_tokens[k],
        from_tokens[k] is None && cat[k].env is Some && env_lookup(env, cat[k].env.unwrap()@) is Some
            ==> resolve(cat, env, from_tokens)[k] == Some(Some(env_lookup(env, cat[k].env.unwrap()@).unwrap())),
        from_tokens[k] is None && (cat[k].env is None || env_lookup(env, cat[k].env.unwrap()@) is None)
            && cat[k].default_value is Some ==> resolve(cat, env, from_tokens)[k] == Some(
            Some(cat[k].default_value.unwrap()@),
        ),
        from_tokens[k] is None && (cat[k].env is None || env_lookup(env, cat[k].env.unwrap()@) is None)
            && cat[k].default_value is None ==> resolve(cat, env, from_tokens)[k] is None,
{
}

/// The flags that parsing resolves are the tokens' flags after the
/// providers ran.
pub proof fn lemma_resolved_from_tokens(
    cat: Seq<FlagDef>,
    strict: bool,
    ignore_required: bool,
    env: Seq<(Seq<char>, Seq<char>)>,
    toks: Seq<Seq<char>>,
)
    ensures
        resolve_args(cat, strict, ignore_required, env, toks) matches Ok(st) ==> (tokenize(cat, strict, toks) matches Ok(t)
            && st.slots == resolve(cat, env, t.slots) && st.positionals == t.positionals),
{
}

proof fn lemma_plan_unknown(
    cat: Seq<FlagDef>,
    chars: Seq<char>,
    u: int,
    j: int,
    acc: Seq<(int, Option<Seq<char>>)>,
)
    requires
        0 <= j <= u < chars.len(),
        find_short_from(cat, chars[u], 0) is None,
        forall|x: int|
            0 <= x < u ==> (#[trigger] find_short_from(cat, chars[x], 0) matches Some(k) && !cat[k].takes_value),
    ensures
        plan_from(cat, chars, j, acc) == Plan::Unknown(u),
    decreases u - j,
{
    if j < u {
        let k = find_short_from(cat, chars[j], 0).unwrap();
        lemma_plan_unknown(cat, chars, u, j + 1, acc.push((k, None)));
    }
}

/// A short-flag cluster with one unknown character, every character before
/// it a boolean short flag, applies as a whole or not at all: strict mode
/// rejects the token with `UnknownFlag`; loose mode keeps it whole as a
/// positional and sets no flag. (When the unknown character is the first and
/// the rest reads as a number, the token is a negative number and a
/// positional in either mode, so that case is left out.)
pub proof fn lemma_cluster_atomic(
    cat: Seq<FlagDef>,
    strict: bool,
    toks: Seq<Seq<char>>,
    i: int,
    st: ScanState,
    u: int,
)
    requires
        0 <= i < toks.len(),
        is_short_token(toks[i]),
        !is_long_token(toks[i]),
        0 <= u < toks[i].len() - 1,
        find_short_from(cat, toks[i][u + 1], 0) is None,
        forall|x: int|
            0 <= x < u ==> (#[trigger] find_short_from(cat, toks[i][x + 1], 0) matches Some(k)
                && !cat[k].takes_value),
        u > 0 || !is_number(toks[i].subrange(1, toks[i].len() as int)),
    ensures
        strict ==> (token_step(cat, strict, toks, i, st) matches Err(f) && f.kind == ErrorKind::UnknownFlag),
        !strict ==> token_step(cat, strict, toks, i, st) == Ok::<(int, ScanState), Failure>((i + 1, push_positional(st, toks[i]))),
{
    let t = toks[i];
    let chars = t.subrange(1, t.len() as int);
    assert forall|x: int| 0 <= x < u implies (#[trigger] find_short_from(cat, chars[x], 0) matches Some(k)
        && !cat[k].takes_value) by {
        assert(chars[x] == t[x + 1]);
        assert(find_short_from(cat, t[x + 1], 0) matches Some(k) && !cat[k].takes_value);
    }
    assert(chars[u] == t[u + 1]);
    if u > 0 {
        assert(find_short_from(cat, chars[0], 0) matches Some(k) && !cat[k].takes_value);
        lemma_plan_unknown(cat, chars, u, 0, seq![]);
    }
}

/// Everything after the `--` delimiter is positional, verbatim, and sets no
/// flag.
pub proof fn lemma_delimiter_passthrough(cat: Seq<FlagDef>, strict: bool, rest: Seq<Seq<char>>)
    ensures
        tokenize(cat, strict, seq!["--"@] + rest) == Ok::<ScanState, Failure>(
            ScanState { slots: initial_state(cat.len()).slots, positionals: rest },
        ),
{
    let toks = seq!["--"@] + rest;
    assert(toks[0] == "--"@);
    assert(toks.subrange(1, toks.len() as int) =~= rest);
    assert(seq![] + rest =~= rest);
}

/// `[prog, --help]` selects help for the root (unless a subcommand is
/// itself named `--help`).
pub proof fn lemma_help_at_root(
    root: CommandDef,
    strict: bool,
    env: Seq<(Seq<char>, Seq<char>)>,
    rejections: Rejections,
    prog: Seq<char>,
)
    requires
        child_from(root, "--help"@, 0) is None,
    ensures
        dispatch_from(root, strict, env, rejections, seq![prog, "--help"@], seq![]) == Ok::<Selected, Failure>(
            Selected::Help(seq![]),
        ),
{
    let toks = seq![prog, "--help"@];
    assert(is_help_marker(root, toks[1]));
    assert(help_from(root, toks, 1) == Some(1int));
    assert(child_token_from(root, toks, 2) is None);
    assert(child_token_from(root, toks, 1) is None);
}

/// `[prog, child, --help]` selects help for that child, not for the root
/// and not the child's handler. Left out: a root flag that answers to
/// `--help` and takes a value (it would consume nothing and fail), and a
/// grandchild named `--help`.
pub proof fn lemma_help_at_child(
    root: CommandDef,
    strict: bool,
    env: Seq<(Seq<char>, Seq<char>)>,
    rejections: Rejections,
    prog: Seq<char>,
    c: int,
)
    requires
        0 <= c < root.subcommands@.len(),
        child_from(root, root.subcommands@[c].name@, 0) == Some(c),
        root.subcommands@[c].name@.len() > 0,
        root.subcommands@[c].name@[0] != '-',
        find_long_from(root.flags@, "help"@, 0) matches Some(k) ==> !root.flags@[k].takes_value,
        child_from(root.subcommands@[c], "--help"@, 0) is None,
    ensures
        dispatch_from(root, strict, env, rejections, seq![prog, root.subcommands@[c].name@, "--help"@], seq![])
            == Ok::<Selected, Failure>(Selected::Help(seq![c])),
{
    let name = root.subcommands@[c].name@;
    let sub = root.subcommands@[c];
    let toks = seq![prog, name, "--help"@];
    reveal_strlit("--help");
    reveal_strlit("-h");
    reveal_strlit("--");
    reveal_strlit("help");
    assert(!is_help_marker(root, name));
    assert(is_help_marker(root, toks[2]));
    assert(help_from(root, toks, 2) == Some(2int));
    assert(help_from(root, toks, 1) == Some(2int));
    assert(child_token_from(root, toks, 1) == Some(1int));
    let rest = toks.subrange(1, 3);
    assert(rest =~= seq![name, "--help"@]);
    let cat = root.flags@;
    let st0 = initial_state(cat.len());
    let st1 = push_positional(st0, name);
    assert(token_step(cat, false, rest, 0, st0) == Ok::<(int, ScanState), Failure>((1, st1)));
    let body = "--help"@.subrange(2, 6);
    assert(body =~= "help"@);
    reveal_with_fuel(find_char_from, 5);
    assert(find_char(body, '=') is None);
    assert(long_parts("--help"@) == (body, None::<Seq<char>>));
    assert(scan_from(cat, false, rest, 0, st0) == scan_from(cat, false, rest, 1, st1));
    assert(!crate::model::is_delimiter(rest[1]));
    assert(is_long_token(rest[1]));
    match find_long_from(cat, "help"@, 0) {
        Some(k) => {
            let st2 = crate::model::set_slot(st1, k, None);
            assert(token_step(cat, false, rest, 1, st1) == Ok::<(int, ScanState), Failure>((2, st2)));
            assert(scan_from(cat, false, rest, 1, st1) == scan_from(cat, false, rest, 2, st2));
            assert(st2.positionals[0] == name);
        },
        None => {
            let st2 = push_positional(st1, "--help"@);
            assert(token_step(cat, false, rest, 1, st1) == Ok::<(int, ScanState), Failure>((2, st2)));
            assert(scan_from(cat, false, rest, 1, st1) == scan_from(cat, false, rest, 2, st2));
            assert(st2.positionals[0] == name);
        },
    }
    let out = tokenize(cat, false, rest);
    assert(out matches Ok(st) && st.positionals.len() > 0 && st.positionals[0] == name);
    assert(token_from(toks, name, 1) == Some(1int));
    let toks2 = toks.subrange(1, 3);
    assert(toks2 =~= seq![name, "--help"@]);
    assert(is_help_marker(sub, toks2[1]));
    assert(help_from(sub, toks2, 1) == Some(1int));
    assert(child_token_from(sub, toks2, 2) is None);
    assert(child_token_from(sub, toks2, 1) is None);
    assert(seq![].push(c) =~= seq![c]);
    assert(crate::dispatch::after_name(toks) == rest);
    assert(dispatch_from(sub, strict, env, rejections, toks2, seq![c]) == Ok::<Selected, Failure>(Selected::Help(seq![c])));
    assert(dispatch_from(root, strict, env, rejections, toks, seq![]) == dispatch_from(sub, strict, env, rejections, toks2, seq![].push(c)));
}

/// The parent's catalog of the scoped-requiredness law: one required value
/// flag with no provider, answering to the long form `l`.
pub open spec fn lone_required_flag(cat: Seq<FlagDef>, l: Seq<char>) -> bool {
    &&& cat.len() == 1
    &&& cat[0].required
    &&& cat[0].takes_value
    &&& cat[0].env is None
    &&& cat[0].default_value is None
    &&& cat[0].spec_long_name() == l
    &&& l.len() > 0
    &&& find_char(l, '=') is None
    &&& l != "help"@
    &&& l != "version"@
}

proof fn lemma_flag_then_value(cat: Seq<FlagDef>, l: Seq<char>, strict: bool, v: Seq<char>)
    requires
        lone_required_flag(cat, l),
    ensures
        tokenize(cat, strict, seq!["--"@ + l, v]) == Ok::<ScanState, Failure>(
            set_slot(initial_state(1), 0, Some(v)),
        ),
{
    let t = "--"@ + l;
    let toks = seq![t, v];
    reveal_strlit("--");
    assert(t.len() >= 3);
    assert(t[0] == '-' && t[1] == '-');
    assert(t != "--"@);
    assert(t.subrange(2, t.len() as int) =~= l);
    assert(long_parts(t) == (l, None::<Seq<char>>));
    assert(cat[0].matches_long(l));
    assert(find_long_from(cat, l, 0) == Some(0int));
    let st0 = initial_state(cat.len());
    let st1 = set_slot(st0, 0, Some(v));
    assert(consume(cat, toks, 1, 0, st0) == Ok::<(int, ScanState), Failure>((2, st1)));
    assert(token_step(cat, strict, toks, 0, st0) == Ok::<(int, ScanState), Failure>((2, st1)));
    assert(scan_from(cat, strict, toks, 0, st0) == scan_from(cat, strict, toks, 2, st1));
}

/// A parent with a required flag and a child without flags: running the
/// parent alone fails with `MissingArgument`; running the child succeeds
/// without the parent's flag; running the parent with the flag succeeds.
/// (The child's name starts with no dash; the flag's long form is not
/// `help` or `version` and holds no `=`; its value is no help or version
/// marker, and the validator does not reject it.)
pub proof fn lemma_scoped_requiredness(
    root: CommandDef,
    strict: bool,
    env: Seq<(Seq<char>, Seq<char>)>,
    rejections: Rejections,
    prog: Seq<char>,
    l: Seq<char>,
    v: Seq<char>,
)
    requires
        lone_required_flag(root.flags@, l),
        root.subcommands@.len() > 0,
        root.subcommands@[0].flags@.len() == 0,
        root.subcommands@[0].subcommands@.len() == 0,
        root.subcommands@[0].name@.len() > 0,
        root.subcommands@[0].name@[0] != '-',
        v != "--help"@,
        v != "-h"@,
        v != "--version"@,
        !(rejections.len() > 0 && rejections[0] is Some),
    ensures
        dispatch_from(root, strict, env, rejections, seq![prog], seq![]) matches Err(f) && f.kind == ErrorKind::MissingArgument,
        dispatch_from(root, strict, env, rejections, seq![prog, root.subcommands@[0].name@], seq![]) matches Ok(
            Selected::Run(p, _, _),
        ) && p == seq![0int],
        dispatch_from(root, strict, env, rejections, seq![prog, "--"@ + l, v], seq![]) matches Ok(Selected::Run(p, _, st))
            && p == Seq::<int>::empty() && st.slots[0] == Some(Some(v)),
{
    let cat = root.flags@;
    let child = root.subcommands@[0];
    let name = child.name@;
    reveal_strlit("--help");
    reveal_strlit("-h");
    reveal_strlit("--version");
    reveal_strlit("--");
    reveal_strlit("help");
    reveal_strlit("version");
    let empty: Seq<Seq<char>> = seq![];
    let st0 = initial_state(1);
    // The parent alone.
    let t1 = seq![prog];
    assert(help_from(root, t1, 1) is None);
    assert(child_token_from(root, t1, 1) is None);
    assert(crate::dispatch::after_name(t1) =~= empty);
    assert(tokenize(cat, false, empty) == Ok::<ScanState, Failure>(st0));
    assert(tokenize(cat, strict, empty) == Ok::<ScanState, Failure>(st0));
    assert(!crate::dispatch::asks_version_from(t1, 1));
    assert(provided(cat[0], env) is None);
    assert(resolve(cat, env, st0.slots)[0] is None);
    assert(violation_from(cat, resolve(cat, env, st0.slots), false, rejections, 0) == Some(0int));
    // The child.
    let t2 = seq![prog, name];
    assert(!is_help_marker(root, name));
    assert(help_from(root, t2, 2) is None);
    assert(help_from(root, t2, 1) is None);
    assert(root.names_child(0, name));
    assert(child_from(root, name, 0) == Some(0int));
    assert(child_token_from(root, t2, 1) == Some(1int));
    let r2 = crate::dispatch::after_name(t2);
    assert(r2 =~= seq![name]);
    let st_c = push_positional(st0, name);
    assert(token_step(cat, false, r2, 0, st0) == Ok::<(int, ScanState), Failure>((1, st_c)));
    assert(scan_from(cat, false, r2, 0, st0) == scan_from(cat, false, r2, 1, st_c));
    assert(tokenize(cat, false, r2) == Ok::<ScanState, Failure>(st_c));
    assert(token_from(t2, name, 1) == Some(1int));
    let t2c = t2.subrange(1, 2);
    assert(t2c =~= seq![name]);
    assert(help_from(child, t2c, 1) is None);
    assert(child_token_from(child, t2c, 1) is None);
    assert(crate::dispatch::after_name(t2c) =~= empty);
    assert(!crate::dispatch::asks_version_from(t2c, 1));
    assert(seq![].push(0int) =~= seq![0int]);
    assert(violation_from(child.flags@, resolve(child.flags@, env, initial_state(0).slots), false, rejections, 0) is None);
    assert(dispatch_from(root, strict, env, rejections, t2, seq![]) == dispatch_from(child, strict, env, rejections, t2c, seq![].push(0int)));
    // The parent with its flag.
    let t = "--"@ + l;
    let t3 = seq![prog, t, v];
    assert(t.len() >= 3);
    assert(t != "--help"@) by {
        if t == "--help"@ {
            assert(l =~= t.subrange(2, t.len() as int));
            assert("--help"@.subrange(2, 6) =~= "help"@);
        }
    }
    assert(t != "--version"@) by {
        if t == "--version"@ {
            assert(l =~= t.subrange(2, t.len() as int));
            assert("--version"@.subrange(2, 9) =~= "version"@);
        }
    }
    assert(!is_help_marker(root, t));
    assert(!is_help_marker(root, v));
    assert(help_from(root, t3, 3) is None);
    assert(help_from(root, t3, 2) is None);
    assert(help_from(root, t3, 1) is None);
    let r3 = crate::dispatch::after_name(t3);
    assert(r3 =~= seq![t, v]);
    lemma_flag_then_value(cat, l, false, v);
    lemma_flag_then_value(cat, l, strict, v);
    let st3 = set_slot(st0, 0, Some(v));
    assert(st3.positionals.len() == 0);
    assert(!crate::dispatch::asks_version_from(t3, 3));
    assert(!crate::dispatch::asks_version_from(t3, 2));
    assert(!crate::dispatch::asks_version_from(t3, 1));
    assert(resolve(cat, env, st3.slots)[0] == Some(Some(v)));
    assert(violation_from(cat, resolve(cat, env, st3.slots), false, rejections, 1) is None);
    assert(violation_from(cat, resolve(cat, env, st3.slots), false, rejections, 0) is None);
}


/// No two flags of the catalog share a name.
pub open spec fn names_unique(cat: Seq<FlagDef>) -> bool {
    forall|i: int, j: int| 0 <= i < j < cat.len() ==> #[trigger] cat[i].name@ != #[trigger] cat[j].name@
}

proof fn lemma_lookup_after_push(
    s: Seq<(Seq<char>, Option<FlagValueView>)>,
    e: (Seq<char>, Option<FlagValueView>),
    n: Seq<char>,
    i: int,
)
    requires
        0 <= i <= s.len(),
    ensures
        lookup_from(s.push(e), n, i) == match lookup_from(s, n, i) {
            Some(v) => Some(v),
            None => if e.0 == n {
                Some(e.1)
            } else {
                None
            },
        },
    decreases s.len() - i,
{
    assert(s.push(e)[s.len() as int] == e);
    if i < s.len() {
        assert(s.push(e)[i] == s[i]);
        lemma_lookup_after_push(s, e, n, i + 1);
    }
}

proof fn lemma_slot_entries_lookup(cat: Seq<FlagDef>, slots: Seq<SlotView>, m: int, k: int)
    requires
        0 <= m <= cat.len(),
        0 <= k < cat.len(),
        slots.len() == cat.len(),
        names_unique(cat),
    ensures
        lookup(slot_entries(cat, slots, m), cat[k].name@) == if k < m && slots[k] is Some {
            Some(Some(slot_value(slots[k].unwrap())))
        } else {
            None::<Option<FlagValueView>>
        },
    decreases m,
{
    if m > 0 {
        lemma_slot_entries_lookup(cat, slots, m - 1, k);
        let before = slot_entries(cat, slots, m - 1);
        if slots[m - 1] is Some {
            let e = (cat[m - 1].name@, Some(slot_value(slots[m - 1].unwrap())));
            lemma_lookup_after_push(before, e, cat[k].name@, 0);
            if k != m - 1 {
                if k < m - 1 {
                    assert(cat[k].name@ != cat[m - 1].name@);
                } else {
                    assert(cat[m - 1].name@ != cat[k].name@);
                }
            }
        }
    }
}

/// In a successful parse over a catalog with distinct names, a value flag's
/// entry comes from the tokens if they gave it a value, else from its
/// environment variable if declared and set, else from its default, else it
/// has none.
pub proof fn lemma_parse_precedence(
    cat: Seq<FlagDef>,
    strict: bool,
    ignore_required: bool,
    env: Seq<(Seq<char>, Seq<char>)>,
    toks: Seq<Seq<char>>,
    r: Result<Context, KoralError>,
    k: int,
)
    requires
        parsed_as(cat, strict, ignore_required, env, toks, r),
        r is Ok,
        names_unique(cat),
        0 <= k < cat.len(),
        cat[k].takes_value,
    ensures
        tokenize(cat, strict, toks) matches Ok(t) && {
            let got = r.unwrap().flags.spec_get(cat[k].name@);
            let from_env = match cat[k].env {
                Some(var) => env_lookup(env, var@),
                None => None,
            };
            &&& (t.slots[k] matches Some(Some(v)) ==> got == Some(Some(FlagValueView::Value(v))))
            &&& (t.slots[k] is None && from_env is Some ==> got == Some(Some(FlagValueView::Value(from_env.unwrap()))))
            &&& (t.slots[k] is None && from_env is None && cat[k].default_value is Some ==> got
                == Some(Some(FlagValueView::Value(cat[k].default_value.unwrap()@))))
            &&& (t.slots[k] is None && from_env is None && cat[k].default_value is None ==> got is None)
        },
{
    lemma_scan_keeps_slot_count(cat, strict, toks);
    if let Ok(t) = tokenize(cat, strict, toks) {
        let slots = resolve(cat, env, t.slots);
        lemma_slot_entries_lookup(cat, slots, cat.len() as int, k);
        assert(slots[k] == resolve_slot(cat[k], env, t.slots[k]));
    }
}

proof fn lemma_scan_keeps_slot_count(cat: Seq<FlagDef>, strict: bool, toks: Seq<Seq<char>>)
    ensures
        tokenize(cat, strict, toks) matches Ok(t) ==> t.slots.len() == cat.len(),
{
    lemma_scan_from_slot_count(cat, strict, toks, 0, initial_state(cat.len()));
}

proof fn lemma_scan_from_slot_count(cat: Seq<FlagDef>, strict: bool, toks: Seq<Seq<char>>, i: int, st: ScanState)
    requires
        st.slots.len() == cat.len(),
    ensures
        scan_from(cat, strict, toks, i, st) matches Ok(t) ==> t.slots.len() == cat.len(),
    decreases toks.len() - i,
{
    if 0 <= i < toks.len() && !is_delimiter(toks[i]) {
        match token_step(cat, strict, toks, i, st) {
            Ok((j, st2)) => {
                lemma_step_slot_count(cat, strict, toks, i, st);
                if j > i {
                    lemma_scan_from_slot_count(cat, strict, toks, j, st2);
                }
            },
            Err(_) => {},
        }
    }
}

proof fn lemma_find_short_in_range(cat: Seq<FlagDef>, c: char, k: int)
    requires
        0 <= k,
    ensures
        find_short_from(cat, c, k) matches Some(x) ==> 0 <= x < cat.len(),
    decreases cat.len() - k,
{
    if k < cat.len() && cat[k].short != Some(c) {
        lemma_find_short_in_range(cat, c, k + 1);
    }
}

proof fn lemma_find_long_in_range(cat: Seq<FlagDef>, n: Seq<char>, k: int)
    requires
        0 <= k,
    ensures
        find_long_from(cat, n, k) matches Some(x) ==> 0 <= x < cat.len(),
    decreases cat.len() - k,
{
    if k < cat.len() && !cat[k].matches_long(n) {
        lemma_find_long_in_range(cat, n, k + 1);
    }
}

proof fn lemma_plan_in_range(cat: Seq<FlagDef>, chars: Seq<char>, j: int, acc: Seq<(int, Option<Seq<char>>)>)
    requires
        0 <= j,
        forall|x: int| 0 <= x < acc.len() ==> 0 <= (#[trigger] acc[x]).0 < cat.len(),
    ensures
        plan_from(cat, chars, j, acc) matches Plan::Ready(items, next) ==> (forall|x: int|
            0 <= x < items.len() ==> 0 <= (#[trigger] items[x]).0 < cat.len()) && (next matches Some(k)
            ==> 0 <= k < cat.len()),
    decreases chars.len() - j,
{
    if j < chars.len() {
        lemma_find_short_in_range(cat, chars[j], 0);
        if let Some(k) = find_short_from(cat, chars[j], 0) {
            let acc2 = acc.push((k, if cat[k].takes_value { Some(chars.subrange(j + 1, chars.len() as int)) } else { None }));
            assert forall|x: int| 0 <= x < acc2.len() implies 0 <= (#[trigger] acc2[x]).0 < cat.len() by {
                if x < acc.len() {
                    assert(acc2[x] == acc[x]);
                }
            }
            if !cat[k].takes_value {
                lemma_plan_in_range(cat, chars, j + 1, acc.push((k, None)));
            }
        }
    }
}

proof fn lemma_apply_plan_slot_count(st: ScanState, items: Seq<(int, Option<Seq<char>>)>)
    requires
        forall|x: int| 0 <= x < items.len() ==> 0 <= (#[trigger] items[x]).0 < st.slots.len(),
    ensures
        apply_plan(st, items).slots.len() == st.slots.len(),
    decreases items.len(),
{
    if items.len() > 0 {
        let init = items.drop_last();
        assert forall|x: int| 0 <= x < init.len() implies 0 <= (#[trigger] init[x]).0 < st.slots.len() by {
            assert(init[x] == items[x]);
        }
        lemma_apply_plan_slot_count(st, init);
    }
}

proof fn lemma_step_slot_count(cat: Seq<FlagDef>, strict: bool, toks: Seq<Seq<char>>, i: int, st: ScanState)
    requires
        0 <= i < toks.len(),
        st.slots.len() == cat.len(),
    ensures
        token_step(cat, strict, toks, i, st) matches Ok((j, st2)) ==> st2.slots.len() == st.slots.len(),
{
    let t = toks[i];
    if is_long_token(t) {
        lemma_find_long_in_range(cat, long_parts(t).0, 0);
    } else if is_short_token(t) {
        let chars = t.subrange(1, t.len() as int);
        lemma_plan_in_range(cat, chars, 0, seq![]);
        match plan_from(cat, chars, 0, seq![]) {
            Plan::Ready(items, _) => {
                lemma_apply_plan_slot_count(st, items);
            },
            _ => {},
        }
    }
}

/// Wherever the scan meets a standalone `--`, every later token is a
/// positional, verbatim, and no later token sets a flag.
pub proof fn lemma_delimiter_anywhere(cat: Seq<FlagDef>, strict: bool, toks: Seq<Seq<char>>, i: int, st: ScanState)
    requires
        0 <= i < toks.len(),
        toks[i] == "--"@,
    ensures
        scan_from(cat, strict, toks, i, st) == Ok::<ScanState, Failure>(
            ScanState { slots: st.slots, positionals: st.positionals + toks.subrange(i + 1, toks.len() as int) },
        ),
{
}

} // verus!
