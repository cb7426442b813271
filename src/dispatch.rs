//! Walking the command tree: help and version short-circuits, subcommand
//! descent, and resolving the flags of the node selected to execute.
use vstd::prelude::*;
use crate::command::CommandDef;
use crate::context::{str_eq, Context};
use crate::error::KoralError;
use crate::flag::FlagDef;
use crate::model::{
    find_short_from, no_rejections, resolve, resolve_args_with, slot_entries, tokenize, Failure, Rejections, ScanState,
};
use crate::validator::{AcceptAll, Validator};
use crate::parser::{answers, fails_as, parsed_as_with, slots_view, Scanner};
use crate::provider::EnvProvider;

verus! {

/// What a dispatch selected, in the model: help or version output for the
/// node at a path of child indices, or the node at a path to run, with its
/// catalog and resolved flags and positionals.
pub enum Selected {
    Help(Seq<int>),
    Version(Seq<int>),
    Run(Seq<int>, Seq<FlagDef>, ScanState),
}

/// First child of `node` at or after index `c` that `t` names.
pub open spec fn child_from(node: CommandDef, t: Seq<char>, c: int) -> Option<int>
    decreases node.subcommands@.len() - c,
{
    if c < 0 || c >= node.subcommands@.len() {
        None
    } else if node.names_child(c, t) {
        Some(c)
    } else {
        child_from(node, t, c + 1)
    }
}

/// `t` asks for help at `node`: `--help`, or `-h` when no flag of the node
/// claims the short form `h`.
pub open spec fn is_help_marker(node: CommandDef, t: Seq<char>) -> bool {
    t == "--help"@ || (t == "-h"@ && find_short_from(node.flags@, 'h', 0) is None)
}

/// First token index at or after `i` that asks for help at `node`.
pub open spec fn help_from(node: CommandDef, toks: Seq<Seq<char>>, i: int) -> Option<int>
    decreases toks.len() - i,
{
    if i < 0 || i >= toks.len() {
        None
    } else if is_help_marker(node, toks[i]) {
        Some(i)
    } else {
        help_from(node, toks, i + 1)
    }
}

/// First token index at or after `i` that names a child of `node`.
pub open spec fn child_token_from(node: CommandDef, toks: Seq<Seq<char>>, i: int) -> Option<int>
    decreases toks.len() - i,
{
    if i < 0 || i >= toks.len() {
        None
    } else if child_from(node, toks[i], 0) is Some {
        Some(i)
    } else {
        child_token_from(node, toks, i + 1)
    }
}

/// First token index at or after `i` equal to `t`.
pub open spec fn token_from(toks: Seq<Seq<char>>, t: Seq<char>, i: int) -> Option<int>
    decreases toks.len() - i,
{
    if i < 0 || i >= toks.len() {
        None
    } else if toks[i] == t {
        Some(i)
    } else {
        token_from(toks, t, i + 1)
    }
}

/// Some token at or after index `i` is `--version`.
pub open spec fn asks_version_from(toks: Seq<Seq<char>>, i: int) -> bool
    decreases toks.len() - i,
{
    if i < 0 || i >= toks.len() {
        false
    } else {
        toks[i] == "--version"@ || asks_version_from(toks, i + 1)
    }
}

/// The tokens after the leading name.
pub open spec fn after_name(toks: Seq<Seq<char>>) -> Seq<Seq<char>> {
    if toks.len() > 0 {
        toks.subrange(1, toks.len() as int)
    } else {
        seq![]
    }
}

/// The dispatch of `toks` at `node`, reached by `path`. `toks[0]` is the
/// program name (or, below the root, the subcommand's own name).
///
/// A help marker before any token naming a child selects help for `node`.
/// Otherwise the node's flags are tokenized loosely; if the first positional
/// names a child, dispatch goes on at that child with the tokens from that
/// positional on. Else `node` is selected: `--version` selects version
/// output; otherwise its flags are resolved, each checked for requiredness
/// and against the validators' answers `rejections`.
pub open spec fn dispatch_from(
    node: CommandDef,
    strict: bool,
    env: Seq<(Seq<char>, Seq<char>)>,
    rejections: Rejections,
    toks: Seq<Seq<char>>,
    path: Seq<int>,
) -> Result<Selected, Failure>
    decreases toks.len(),
{
    let rest = after_name(toks);
    let h = help_from(node, toks, 1);
    let s = child_token_from(node, toks, 1);
    if h is Some && (s is None || h.unwrap() < s.unwrap()) {
        Ok(Selected::Help(path))
    } else {
        match tokenize(node.flags@, false, rest) {
            Err(f) => Err(f),
            Ok(st) => {
                let first = if st.positionals.len() > 0 {
                    Some(st.positionals[0])
                } else {
                    None
                };
                let sub = match first {
                    Some(p) => match (child_from(node, p, 0), token_from(toks, p, 1)) {
                        (Some(c), Some(j)) => if 1 <= j < toks.len() {
                            Some((c, j))
                        } else {
                            None
                        },
                        _ => None,
                    },
                    None => None,
                };
                match sub {
                    Some((c, j)) => dispatch_from(
                        node.subcommands@[c],
                        strict,
                        env,
                        rejections,
                        toks.subrange(j, toks.len() as int),
                        path.push(c),
                    ),
                    None => if asks_version_from(toks, 1) {
                        Ok(Selected::Version(path))
                    } else {
                        match resolve_args_with(node.flags@, strict, false, env, rejections, rest) {
                            Err(f) => Err(f),
                            Ok(st2) => Ok(Selected::Run(path, node.flags@, st2)),
                        }
                    },
                }
            },
        }
    }
}

/// The node a dispatch of `toks` at `node` selects to run, with the tokens
/// its flags are resolved from; `None` when help, version output or a
/// failure while descending comes first. It walks as [`dispatch_from`] does.
pub open spec fn leaf_from(node: CommandDef, toks: Seq<Seq<char>>) -> Option<(CommandDef, Seq<Seq<char>>)>
    decreases toks.len(),
{
    let rest = after_name(toks);
    let h = help_from(node, toks, 1);
    let s = child_token_from(node, toks, 1);
    if h is Some && (s is None || h.unwrap() < s.unwrap()) {
        None
    } else {
        match tokenize(node.flags@, false, rest) {
            Err(f) => None,
            Ok(st) => {
                let first = if st.positionals.len() > 0 {
                    Some(st.positionals[0])
                } else {
                    None
                };
                let sub = match first {
                    Some(p) => match (child_from(node, p, 0), token_from(toks, p, 1)) {
                        (Some(c), Some(j)) => if 1 <= j < toks.len() {
                            Some((c, j))
                        } else {
                            None
                        },
                        _ => None,
                    },
                    None => None,
                };
                match sub {
                    Some((c, j)) => leaf_from(node.subcommands@[c], toks.subrange(j, toks.len() as int)),
                    None => if asks_version_from(toks, 1) {
                        None
                    } else {
                        Some((node, rest))
                    },
                }
            },
        }
    }
}

/// The rejections of a validated dispatch: `validator`'s verdicts on the
/// payload strings `se` of the selected node.
pub open spec fn leaf_answers<V: Validator>(
    validator: V,
    root: CommandDef,
    toks: Seq<Seq<char>>,
    se: Seq<Option<Option<String>>>,
) -> Rejections {
    match leaf_from(root, toks) {
        Some((n, _)) => answers(validator, n.flags@, se),
        None => no_rejections(),
    }
}

/// `se` holds exactly the payload texts the model resolves at the selected
/// node.
pub open spec fn leaf_payloads(
    root: CommandDef,
    strict: bool,
    env: Seq<(Seq<char>, Seq<char>)>,
    toks: Seq<Seq<char>>,
    se: Seq<Option<Option<String>>>,
) -> bool {
    match leaf_from(root, toks) {
        Some((n, rest)) => tokenize(n.flags@, strict, rest) matches Ok(st) ==> slots_view(se) == resolve(
            n.flags@,
            env,
            st.slots,
        ),
        None => true,
    }
}

/// What a dispatch selected: help or version output for the node at a path
/// of child indices, or the node at a path to run with its context.
pub enum Dispatch {
    Help(Vec<usize>),
    Version(Vec<usize>),
    Run(Vec<usize>, Context),
}

pub open spec fn path_view(p: Seq<usize>) -> Seq<int> {
    Seq::new(p.len(), |i: int| p[i] as int)
}

/// The executable outcome `r` agrees with the model's outcome `m`.
pub open spec fn dispatch_agrees(m: Result<Selected, Failure>, r: Result<Dispatch, KoralError>) -> bool {
    match m {
        Ok(Selected::Help(p)) => r matches Ok(Dispatch::Help(q)) && path_view(q@) == p,
        Ok(Selected::Version(p)) => r matches Ok(Dispatch::Version(q)) && path_view(q@) == p,
        Ok(Selected::Run(p, cat, st)) => r matches Ok(Dispatch::Run(q, ctx)) && path_view(q@) == p
            && ctx.flags.spec_entries() == slot_entries(cat, st.slots, cat.len() as int)
            && ctx.args.deep_view() == st.positionals,
        Err(f) => r matches Err(e) && fails_as(e, f),
    }
}

/// The tokens of `toks` from index `j` on.
fn tokens_from(toks: &Vec<String>, j: usize) -> (r: Vec<String>)
    requires
        j <= toks@.len(),
    ensures
        r.deep_view() == toks.deep_view().subrange(j as int, toks@.len() as int),
{
    let mut r: Vec<String> = Vec::new();
    let mut x = j;
    while x < toks.len()
        invariant
            j <= x <= toks@.len(),
            r.deep_view() == toks.deep_view().subrange(j as int, x as int),
        decreases toks@.len() - x,
    {
        let ghost before = r.deep_view();
        r.push(toks[x].clone());
        proof {
            let tv = toks.deep_view();
            assert(r.deep_view() =~= before.push(tv[x as int]));
            assert(tv.subrange(j as int, x + 1) =~= tv.subrange(j as int, x as int).push(tv[x as int]));
        }
        x = x + 1;
    }
    r
}

/// The child of `node` that `t` names, if any.
fn find_child(node: &CommandDef, t: &String) -> (r: Option<usize>)
    ensures
        r matches Some(c) ==> child_from(*node, t@, 0) == Some(c as int) && c < node.subcommands@.len(),
        r is None ==> child_from(*node, t@, 0) is None,
{
    let mut c: usize = 0;
    while c < node.subcommands.len()
        invariant
            c <= node.subcommands@.len(),
            child_from(*node, t@, 0) == child_from(*node, t@, c as int),
        decreases node.subcommands@.len() - c,
    {
        let sub = &node.subcommands[c];
        let mut hit = sub.name == *t;
        let mut j: usize = 0;
        while j < sub.aliases.len() && !hit
            invariant
                j <= sub.aliases@.len(),
                sub == node.subcommands@[c as int],
                hit ==> node.names_child(c as int, t@),
                !hit ==> sub.name@ != t@ && forall|x: int| 0 <= x < j ==> #[trigger] sub.aliases@[x]@ != t@,
            decreases sub.aliases@.len() - j,
        {
            if sub.aliases[j] == *t {
                hit = true;
            }
            j = j + 1;
        }
        if hit {
            return Some(c);
        }
        c = c + 1;
    }
    None
}

/// Whether `t` asks for help at `node`.
fn help_marker(node: &CommandDef, t: &String) -> (r: bool)
    ensures
        r == is_help_marker(*node, t@),
{
    if str_eq(t.as_str(), "--help") {
        return true;
    }
    if !str_eq(t.as_str(), "-h") {
        return false;
    }
    let env = EnvProvider::empty();
    let scanner = Scanner { known_flags: &node.flags, strict: false, ignore_required: true, env: &env };
    scanner.find_short_flag('h').is_none()
}

/// The model's first-index search over token predicates, as a loop: first
/// help marker and first child name at or after index 1.
fn help_and_child(node: &CommandDef, toks: &Vec<String>) -> (r: (Option<usize>, Option<usize>))
    ensures
        r.0 matches Some(h) ==> help_from(*node, toks.deep_view(), 1) == Some(h as int),
        r.0 is None ==> help_from(*node, toks.deep_view(), 1) is None,
        r.1 matches Some(c) ==> child_token_from(*node, toks.deep_view(), 1) == Some(c as int),
        r.1 is None ==> child_token_from(*node, toks.deep_view(), 1) is None,
{
    let ghost tv = toks.deep_view();
    let mut h: Option<usize> = None;
    let mut s: Option<usize> = None;
    let mut i: usize = 1;
    proof {
        if toks@.len() == 0 {
            assert(help_from(*node, tv, 1) is None);
            assert(child_token_from(*node, tv, 1) is None);
        }
    }
    while i < toks.len()
        invariant
            tv == toks.deep_view(),
            1 <= i,
            toks@.len() == 0 || i <= toks@.len(),
            match h {
                Some(x) => help_from(*node, tv, 1) == Some(x as int),
                None => help_from(*node, tv, 1) == help_from(*node, tv, i as int),
            },
            match s {
                Some(x) => child_token_from(*node, tv, 1) == Some(x as int),
                None => child_token_from(*node, tv, 1) == child_token_from(*node, tv, i as int),
            },
        decreases toks@.len() - i,
    {
        if h.is_none() && help_marker(node, &toks[i]) {
            h = Some(i);
        }
        if s.is_none() && find_child(node, &toks[i]).is_some() {
            s = Some(i);
        }
        i = i + 1;
    }
    proof {
        if h is None {
            assert(help_from(*node, tv, i as int) is None);
        }
        if s is None {
            assert(child_token_from(*node, tv, i as int) is None);
        }
    }
    (h, s)
}

/// The first index at or after 1 of a token equal to `t`.
fn token_index(toks: &Vec<String>, t: &String) -> (r: Option<usize>)
    ensures
        r matches Some(j) ==> token_from(toks.deep_view(), t@, 1) == Some(j as int) && 1 <= j < toks@.len(),
        r is None ==> token_from(toks.deep_view(), t@, 1) is None,
{
    let ghost tv = toks.deep_view();
    let mut i: usize = 1;
    if toks.len() == 0 {
        return None;
    }
    while i < toks.len()
        invariant
            tv == toks.deep_view(),
            1 <= i <= toks@.len(),
            token_from(tv, t@, 1) == token_from(tv, t@, i as int),
        decreases toks@.len() - i,
    {
        if toks[i] == *t {
            return Some(i);
        }
        i = i + 1;
    }
    None
}

/// Whether some token at or after index 1 is `--version`.
fn asks_version(toks: &Vec<String>) -> (r: bool)
    ensures
        r == asks_version_from(toks.deep_view(), 1),
{
    let ghost tv = toks.deep_view();
    if toks.len() == 0 {
        return false;
    }
    let mut i: usize = toks.len();
    let mut found = false;
    while i > 1
        invariant
            tv == toks.deep_view(),
            1 <= i <= toks@.len(),
            found == asks_version_from(tv, i as int),
        decreases i,
    {
        i = i - 1;
        found = found || str_eq(toks[i].as_str(), "--version");
    }
    found
}

/// Dispatches `args` (program name first) over the command tree `root`,
/// checking value payloads of the selected node with `validator` if there is
/// one. The outcome is the model's for some answers of the validator, and
/// for none rejected when there is no validator.
fn dispatch_with<V: Validator>(
    root: &CommandDef,
    args: &Vec<String>,
    strict: bool,
    env: &EnvProvider,
    validator: Option<&V>,
) -> (r: Result<Dispatch, KoralError>)
    ensures
        validator is None ==> dispatch_agrees(
            dispatch_from(*root, strict, env.spec_vars(), no_rejections(), args.deep_view(), seq![]),
            r,
        ),
        validator matches Some(v) ==> exists|se: Seq<Option<Option<String>>>|
            #[trigger] dispatch_agrees(
                dispatch_from(*root, strict, env.spec_vars(), leaf_answers(*v, *root, args.deep_view(), se), args.deep_view(), seq![]),
                r,
            ) && leaf_payloads(*root, strict, env.spec_vars(), args.deep_view(), se),
{
    let ghost envv = env.spec_vars();
    let mut node = root;
    let mut toks = tokens_from(args, 0);
    proof {
        assert(args.deep_view().subrange(0, args@.len() as int) =~= args.deep_view());
    }
    let mut path: Vec<usize> = Vec::new();
    proof {
        assert(path_view(path@) =~= seq![]);
    }
    loop
        invariant
            envv == env.spec_vars(),
            leaf_from(*root, args.deep_view()) == leaf_from(*node, toks.deep_view()),
            forall|rej: Rejections|
                #[trigger] dispatch_from(*root, strict, envv, rej, args.deep_view(), seq![]) == dispatch_from(
                    *node,
                    strict,
                    envv,
                    rej,
                    toks.deep_view(),
                    path_view(path@),
                ),
        decreases toks@.len(),
    {
        let ghost tv = toks.deep_view();
        let ghost pv = path_view(path@);
        let ghost none = no_rejections();
        let (h, s) = help_and_child(node, &toks);
        let help_first = match (h, s) {
            (Some(x), Some(y)) => x < y,
            (Some(_), None) => true,
            _ => false,
        };
        if help_first {
            let r = Ok(Dispatch::Help(path));
            assert(dispatch_agrees(dispatch_from(*node, strict, envv, none, tv, pv), r));
            assert(dispatch_agrees(dispatch_from(*root, strict, envv, none, args.deep_view(), seq![]), r));
            proof {
                assert(leaf_from(*node, tv) is None);
                if let Some(v) = validator {
                    let se = Seq::<Option<Option<String>>>::empty();
                    assert(dispatch_agrees(dispatch_from(*root, strict, envv, leaf_answers(*v, *root, args.deep_view(), se), args.deep_view(), seq![]), r));
                }
            }
            return r;
        }
        let rest = if toks.len() > 0 {
            tokens_from(&toks, 1)
        } else {
            Vec::new()
        };
        proof {
            assert(rest.deep_view() =~= crate::dispatch::after_name(tv));
        }
        let loose = Scanner { known_flags: &node.flags, strict: false, ignore_required: true, env };
        let scan = match loose.tokenize(&rest) {
            Ok(sc) => sc,
            Err(e) => {
                let r = Err(e);
                assert(dispatch_agrees(dispatch_from(*node, strict, envv, none, tv, pv), r));
                assert(dispatch_agrees(dispatch_from(*root, strict, envv, none, args.deep_view(), seq![]), r));
                proof {
                    assert(leaf_from(*node, tv) is None);
                    if let Some(v) = validator {
                        let se = Seq::<Option<Option<String>>>::empty();
                        assert(dispatch_agrees(dispatch_from(*root, strict, envv, leaf_answers(*v, *root, args.deep_view(), se), args.deep_view(), seq![]), r));
                    }
                }
                return r;
            },
        };
        let mut sub: Option<(usize, usize)> = None;
        if scan.positionals.len() > 0 {
            let first = &scan.positionals[0];
            assert(scan.positionals.deep_view()[0] == first@);
            match find_child(node, first) {
                Some(c) => match token_index(&toks, first) {
                    Some(j) => {
                        sub = Some((c, j));
                    },
                    None => {},
                },
                None => {},
            }
        }
        match sub {
            Some((c, j)) => {
                let next = tokens_from(&toks, j);
                let ghost old_node = *node;
                path.push(c);
                proof {
                    assert(path_view(path@) =~= pv.push(c as int));
                }
                node = &node.subcommands[c];
                toks = next;
                assert forall|rej: Rejections|
                    #[trigger] dispatch_from(old_node, strict, envv, rej, tv, pv) == dispatch_from(
                        *node,
                        strict,
                        envv,
                        rej,
                        toks.deep_view(),
                        path_view(path@),
                    ) by {}
                assert(leaf_from(old_node, tv) == leaf_from(*node, toks.deep_view()));
            },
            None => {
                if asks_version(&toks) {
                    let r = Ok(Dispatch::Version(path));
                    assert(dispatch_agrees(dispatch_from(*node, strict, envv, none, tv, pv), r));
                    assert(dispatch_agrees(dispatch_from(*root, strict, envv, none, args.deep_view(), seq![]), r));
                    proof {
                        assert(leaf_from(*node, tv) is None);
                        if let Some(v) = validator {
                            let se = Seq::<Option<Option<String>>>::empty();
                            assert(dispatch_agrees(dispatch_from(*root, strict, envv, leaf_answers(*v, *root, args.deep_view(), se), args.deep_view(), seq![]), r));
                        }
                    }
                    return r;
                }
                let exact = Scanner { known_flags: &node.flags, strict, ignore_required: false, env };
                let parsed = exact.parse_with(&rest, validator);
                let r = match parsed {
                    Ok(ctx) => Ok(Dispatch::Run(path, ctx)),
                    Err(e) => Err(e),
                };
                proof {
                    assert(leaf_from(*node, tv) == Some((*node, rest.deep_view())));
                    match validator {
                        None => {
                            assert(dispatch_agrees(dispatch_from(*node, strict, envv, none, tv, pv), r));
                        },
                        Some(v) => {
                            let se = choose|se: Seq<Option<Option<String>>>|
                                #[trigger] parsed_as_with(node.flags@, strict, false, envv, answers(*v, node.flags@, se), rest.deep_view(), parsed)
                                && (tokenize(node.flags@, strict, rest.deep_view()) matches Ok(st) ==> slots_view(se) == resolve(node.flags@, envv, st.slots));
                            let rej = answers(*v, node.flags@, se);
                            assert(dispatch_agrees(dispatch_from(*node, strict, envv, rej, tv, pv), r));
                            assert(rej == leaf_answers(*v, *root, args.deep_view(), se));
                            assert(dispatch_agrees(dispatch_from(*root, strict, envv, leaf_answers(*v, *root, args.deep_view(), se), args.deep_view(), seq![]), r));
                            assert(leaf_payloads(*root, strict, envv, args.deep_view(), se));
                        },
                    }
                }
                return r;
            },
        }
    }
}

/// Dispatches `args` (program name first) over the command tree `root`:
/// selects help, version output, or the node to run with its resolved
/// context; tokens of the selected node obey `strict`.
pub fn dispatch(root: &CommandDef, args: &Vec<String>, strict: bool, env: &EnvProvider) -> (r: Result<
    Dispatch,
    KoralError,
>)
    ensures
        dispatch_agrees(dispatch_from(*root, strict, env.spec_vars(), no_rejections(), args.deep_view(), seq![]), r),
{
    dispatch_with(root, args, strict, env, None::<&AcceptAll>)
}

/// [`dispatch`], with the selected node's value payloads also checked by
/// `validator`: the outcome is the model's when the rejections are the
/// validator's verdicts on strings holding exactly the payload texts the
/// model resolves at the selected node.
pub fn dispatch_validated<V: Validator>(
    root: &CommandDef,
    args: &Vec<String>,
    strict: bool,
    env: &EnvProvider,
    validator: &V,
) -> (r: Result<Dispatch, KoralError>)
    ensures
        exists|se: Seq<Option<Option<String>>>|
            #[trigger] dispatch_agrees(
                dispatch_from(*root, strict, env.spec_vars(), leaf_answers(*validator, *root, args.deep_view(), se), args.deep_view(), seq![]),
                r,
            ) && leaf_payloads(*root, strict, env.spec_vars(), args.deep_view(), se),
{
    dispatch_with(root, args, strict, env, Some(validator))
}

} // verus!
