//! The mathematical definition of how a token vector resolves against a
//! flag catalog: tokenizing, value providers and required-flag checks.
use vstd::prelude::*;
use crate::error::ErrorKind;
use crate::flag::{FlagDef, FlagValueView};
use crate::text::{find_char, is_number, is_truthy};

verus! {

/// What a flag ended up with: `None` absent, `Some(None)` a boolean flag set,
/// `Some(Some(v))` a value flag with payload `v`.
pub type SlotView = Option<Option<Seq<char>>>;

/// Tokenizer state: one slot per catalog entry, and the positionals so far.
pub struct ScanState {
    pub slots: Seq<SlotView>,
    pub positionals: Seq<Seq<char>>,
}

/// A failure: its kind and its message.
pub struct Failure {
    pub kind: ErrorKind,
    pub message: Seq<char>,
}

/// A short-flag cluster after planning: either a character that names no
/// flag, or the assignments to make and the flag (if any) whose value is the
/// next token.
pub enum Plan {
    Unknown(int),
    Ready(Seq<(int, Option<Seq<char>>)>, Option<int>),
}

pub open spec fn initial_state(n: nat) -> ScanState {
    ScanState { slots: Seq::new(n, |k: int| None), positionals: seq![] }
}

pub open spec fn set_slot(st: ScanState, k: int, v: Option<Seq<char>>) -> ScanState {
    ScanState { slots: st.slots.update(k, Some(v)), positionals: st.positionals }
}

pub open spec fn push_positional(st: ScanState, t: Seq<char>) -> ScanState {
    ScanState { slots: st.slots, positionals: st.positionals.push(t) }
}

/// First catalog index at or after `k` whose long forms include `n`.
pub open spec fn find_long_from(cat: Seq<FlagDef>, n: Seq<char>, k: int) -> Option<int>
    decreases cat.len() - k,
{
    if k < 0 || k >= cat.len() {
        None
    } else if cat[k].matches_long(n) {
        Some(k)
    } else {
        find_long_from(cat, n, k + 1)
    }
}

/// First catalog index at or after `k` whose short form is `c`.
pub open spec fn find_short_from(cat: Seq<FlagDef>, c: char, k: int) -> Option<int>
    decreases cat.len() - k,
{
    if k < 0 || k >= cat.len() {
        None
    } else if cat[k].short == Some(c) {
        Some(k)
    } else {
        find_short_from(cat, c, k + 1)
    }
}

pub open spec fn is_delimiter(t: Seq<char>) -> bool {
    t == "--"@
}

pub open spec fn is_long_token(t: Seq<char>) -> bool {
    t.len() >= 2 && t[0] == '-' && t[1] == '-'
}

pub open spec fn is_short_token(t: Seq<char>) -> bool {
    t.len() > 1 && t[0] == '-'
}

/// Edit distance between two character sequences (insertions, deletions and
/// substitutions each cost one).
pub open spec fn edit_distance(a: Seq<char>, b: Seq<char>) -> nat
    decreases a.len() + b.len(),
{
    if a.len() == 0 {
        b.len()
    } else if b.len() == 0 {
        a.len()
    } else {
        let del = edit_distance(a.drop_last(), b) + 1;
        let ins = edit_distance(a, b.drop_last()) + 1;
        let sub = edit_distance(a.drop_last(), b.drop_last()) + if a.last() == b.last() {
            0nat
        } else {
            1nat
        };
        if del <= ins && del <= sub {
            del
        } else if ins <= sub {
            ins
        } else {
            sub
        }
    }
}

/// The "did you mean" candidate for an unknown long name, scanning the
/// catalog from index `k` with the best candidate so far and its distance:
/// a name within distance 3, or a short form within distance 1, strictly
/// nearer than every earlier candidate.
pub open spec fn suggest_from(
    cat: Seq<FlagDef>,
    n: Seq<char>,
    k: int,
    best: Option<Seq<char>>,
    dist: nat,
) -> Option<Seq<char>>
    decreases cat.len() - k,
{
    if k < 0 || k >= cat.len() {
        best
    } else {
        let d = edit_distance(n, cat[k].name@);
        let (b1, d1) = if d < dist && d <= 3 {
            (Some("--"@ + cat[k].name@), d)
        } else {
            (best, dist)
        };
        let (b2, d2) = match cat[k].short {
            Some(c) => {
                let ds = edit_distance(n, seq![c]);
                if ds < d1 && ds <= 1 {
                    (Some("-"@ + seq![c]), ds)
                } else {
                    (b1, d1)
                }
            },
            None => (b1, d1),
        };
        suggest_from(cat, n, k + 1, b2, d2)
    }
}

pub open spec fn suggest(cat: Seq<FlagDef>, n: Seq<char>) -> Option<Seq<char>> {
    suggest_from(cat, n, 0, None, usize::MAX as nat)
}

pub open spec fn unknown_long_message(t: Seq<char>, s: Option<Seq<char>>) -> Seq<char> {
    "Unknown flag '"@ + t + "'"@ + match s {
        Some(x) => "\n\tDid you mean '"@ + x + "'?"@,
        None => Seq::<char>::empty(),
    }
}

pub open spec fn unknown_short_message(c: char, t: Seq<char>) -> Seq<char> {
    "Unknown short flag '"@ + seq![c] + "' in '"@ + t + "'"@
}

pub open spec fn unknown_in_group_message(c: char, t: Seq<char>) -> Seq<char> {
    "Unknown short flag '-"@ + seq![c] + "' in group '"@ + t + "'"@
}

pub open spec fn takes_no_value_message(name: Seq<char>) -> Seq<char> {
    "Flag '--"@ + name + "' does not take a value"@
}

pub open spec fn needs_value_message(name: Seq<char>) -> Seq<char> {
    "Flag '--"@ + name + "' requires a value"@
}

pub open spec fn required_message(name: Seq<char>) -> Seq<char> {
    "Required flag '--"@ + name + "' is missing"@
}

/// Records flag `k` found at token `next - 1`: a boolean flag is set; a value
/// flag takes token `next` as its payload, which must exist.
pub open spec fn consume(
    cat: Seq<FlagDef>,
    toks: Seq<Seq<char>>,
    next: int,
    k: int,
    st: ScanState,
) -> Result<(int, ScanState), Failure> {
    if cat[k].takes_value {
        if next < toks.len() {
            Ok((next + 1, set_slot(st, k, Some(toks[next]))))
        } else {
            Err(Failure { kind: ErrorKind::MissingArgument, message: needs_value_message(cat[k].name@) })
        }
    } else {
        Ok((next, set_slot(st, k, None)))
    }
}

/// The name part and the optional `=value` part of a long-flag token.
pub open spec fn long_parts(t: Seq<char>) -> (Seq<char>, Option<Seq<char>>) {
    let body = t.subrange(2, t.len() as int);
    match find_char(body, '=') {
        Some(p) => (body.subrange(0, p), Some(body.subrange(p + 1, body.len() as int))),
        None => (body, None),
    }
}

/// One long-flag token at index `i`.
pub open spec fn long_step(
    cat: Seq<FlagDef>,
    strict: bool,
    toks: Seq<Seq<char>>,
    i: int,
    st: ScanState,
) -> Result<(int, ScanState), Failure> {
    let t = toks[i];
    let (name, val) = long_parts(t);
    match find_long_from(cat, name, 0) {
        None => if strict {
            Err(Failure { kind: ErrorKind::UnknownFlag, message: unknown_long_message(t, suggest(cat, name)) })
        } else {
            Ok((i + 1, push_positional(st, t)))
        },
        Some(k) => match val {
            Some(v) => if cat[k].takes_value {
                Ok((i + 1, set_slot(st, k, Some(v))))
            } else {
                Err(Failure { kind: ErrorKind::Validation, message: takes_no_value_message(cat[k].name@) })
            },
            None => consume(cat, toks, i + 1, k, st),
        },
    }
}

/// Plans the cluster characters `chars` from position `j`, with the
/// assignments `acc` planned so far.
pub open spec fn plan_from(
    cat: Seq<FlagDef>,
    chars: Seq<char>,
    j: int,
    acc: Seq<(int, Option<Seq<char>>)>,
) -> Plan
    decreases chars.len() - j,
{
    if j < 0 || j >= chars.len() {
        Plan::Ready(acc, None)
    } else {
        match find_short_from(cat, chars[j], 0) {
            None => Plan::Unknown(j),
            Some(k) => if cat[k].takes_value {
                if j + 1 < chars.len() {
                    Plan::Ready(acc.push((k, Some(chars.subrange(j + 1, chars.len() as int)))), None)
                } else {
                    Plan::Ready(acc, Some(k))
                }
            } else {
                plan_from(cat, chars, j + 1, acc.push((k, None)))
            },
        }
    }
}

/// Makes the planned assignments in order.
pub open spec fn apply_plan(st: ScanState, items: Seq<(int, Option<Seq<char>>)>) -> ScanState
    decreases items.len(),
{
    if items.len() == 0 {
        st
    } else {
        let (k, v) = items.last();
        set_slot(apply_plan(st, items.drop_last()), k, v)
    }
}

/// One short-flag cluster token at index `i`: all of it applies, or none.
pub open spec fn short_step(
    cat: Seq<FlagDef>,
    strict: bool,
    toks: Seq<Seq<char>>,
    i: int,
    st: ScanState,
) -> Result<(int, ScanState), Failure> {
    let t = toks[i];
    let chars = t.subrange(1, t.len() as int);
    match find_short_from(cat, chars[0], 0) {
        None => if is_number(chars) || !strict {
            Ok((i + 1, push_positional(st, t)))
        } else {
            Err(Failure { kind: ErrorKind::UnknownFlag, message: unknown_short_message(chars[0], t) })
        },
        Some(_) => match plan_from(cat, chars, 0, seq![]) {
            Plan::Unknown(j) => if strict {
                Err(Failure { kind: ErrorKind::UnknownFlag, message: unknown_in_group_message(chars[j], t) })
            } else {
                Ok((i + 1, push_positional(st, t)))
            },
            Plan::Ready(items, next) => {
                let st2 = apply_plan(st, items);
                match next {
                    None => Ok((i + 1, st2)),
                    Some(k) => consume(cat, toks, i + 1, k, st2),
                }
            },
        },
    }
}

/// One token (not the delimiter) at index `i`.
pub open spec fn token_step(
    cat: Seq<FlagDef>,
    strict: bool,
    toks: Seq<Seq<char>>,
    i: int,
    st: ScanState,
) -> Result<(int, ScanState), Failure> {
    let t = toks[i];
    if is_long_token(t) {
        long_step(cat, strict, toks, i, st)
    } else if is_short_token(t) {
        short_step(cat, strict, toks, i, st)
    } else {
        Ok((i + 1, push_positional(st, t)))
    }
}

/// Tokenizes `toks` from index `i` on, in state `st`.
pub open spec fn scan_from(
    cat: Seq<FlagDef>,
    strict: bool,
    toks: Seq<Seq<char>>,
    i: int,
    st: ScanState,
) -> Result<ScanState, Failure>
    decreases toks.len() - i,
{
    if i < 0 || i >= toks.len() {
        Ok(st)
    } else if is_delimiter(toks[i]) {
        Ok(ScanState { slots: st.slots, positionals: st.positionals + toks.subrange(i + 1, toks.len() as int) })
    } else {
        match token_step(cat, strict, toks, i, st) {
            Err(f) => Err(f),
            Ok((j, st2)) => if j > i {
                scan_from(cat, strict, toks, j, st2)
            } else {
                Ok(st2)
            },
        }
    }
}

/// The tokenizer: the flags the tokens set and the positionals, or the first
/// failure.
pub open spec fn tokenize(cat: Seq<FlagDef>, strict: bool, toks: Seq<Seq<char>>) -> Result<ScanState, Failure> {
    scan_from(cat, strict, toks, 0, initial_state(cat.len()))
}

/// First value of `name` in an environment snapshot, looking from index `i`.
pub open spec fn env_lookup_from(env: Seq<(Seq<char>, Seq<char>)>, name: Seq<char>, i: int) -> Option<
    Seq<char>,
>
    decreases env.len() - i,
{
    if i < 0 || i >= env.len() {
        None
    } else if env[i].0 == name {
        Some(env[i].1)
    } else {
        env_lookup_from(env, name, i + 1)
    }
}

/// First value of `name` in an environment snapshot.
pub open spec fn env_lookup(env: Seq<(Seq<char>, Seq<char>)>, name: Seq<char>) -> Option<Seq<char>> {
    env_lookup_from(env, name, 0)
}

/// The value the providers offer for a flag the tokens left absent: its
/// environment variable if declared and set, else its default.
pub open spec fn provided(f: FlagDef, env: Seq<(Seq<char>, Seq<char>)>) -> Option<Seq<char>> {
    let from_env = match f.env {
        Some(var) => env_lookup(env, var@),
        None => None,
    };
    match from_env {
        Some(v) => Some(v),
        None => match f.default_value {
            Some(d) => Some(d@),
            None => None,
        },
    }
}

/// A slot after the providers ran.
pub open spec fn resolve_slot(f: FlagDef, env: Seq<(Seq<char>, Seq<char>)>, s: SlotView) -> SlotView {
    if s is Some {
        s
    } else {
        match provided(f, env) {
            None => None,
            Some(v) => if f.takes_value {
                Some(Some(v))
            } else if is_truthy(v) {
                Some(None)
            } else {
                None
            },
        }
    }
}

/// All slots after the providers ran.
pub open spec fn resolve(
    cat: Seq<FlagDef>,
    env: Seq<(Seq<char>, Seq<char>)>,
    slots: Seq<SlotView>,
) -> Seq<SlotView> {
    Seq::new(slots.len(), |k: int| resolve_slot(cat[k], env, slots[k]))
}

pub open spec fn invalid_value_message(name: Seq<char>, reason: Seq<char>) -> Seq<char> {
    "Invalid value for flag '"@ + name + "': "@ + reason
}

/// Validators' answers for a catalog: `Some(reason)` where the validator
/// rejected the flag's value payload, `None` where it accepted it or was not
/// asked.
pub type Rejections = Seq<Option<Seq<char>>>;

/// The answers when nothing is rejected.
pub open spec fn no_rejections() -> Rejections {
    Seq::empty()
}

/// Flag `k` breaks a constraint: it is required and absent (unless
/// `ignore_required`), or its value payload was rejected.
pub open spec fn violates(
    cat: Seq<FlagDef>,
    slots: Seq<SlotView>,
    ignore_required: bool,
    rejections: Rejections,
    k: int,
) -> bool {
    (!ignore_required && cat[k].required && slots[k] is None) || (slots[k] matches Some(Some(_)) && k
        < rejections.len() && rejections[k] is Some)
}

/// First catalog index at or after `k` of a flag that breaks a constraint;
/// each flag is checked for requiredness, then against its validator's
/// answer.
pub open spec fn violation_from(
    cat: Seq<FlagDef>,
    slots: Seq<SlotView>,
    ignore_required: bool,
    rejections: Rejections,
    k: int,
) -> Option<int>
    decreases cat.len() - k,
{
    if k < 0 || k >= cat.len() {
        None
    } else if violates(cat, slots, ignore_required, rejections, k) {
        Some(k)
    } else {
        violation_from(cat, slots, ignore_required, rejections, k + 1)
    }
}

/// The failure of flag `k` that breaks a constraint.
pub open spec fn violation(cat: Seq<FlagDef>, slots: Seq<SlotView>, rejections: Rejections, k: int) -> Failure {
    match slots[k] {
        Some(Some(_)) => Failure {
            kind: ErrorKind::Validation,
            message: invalid_value_message(cat[k].name@, rejections[k].unwrap()),
        },
        _ => Failure { kind: ErrorKind::MissingArgument, message: required_message(cat[k].name@) },
    }
}

/// Tokenizing, then providers, then each flag in catalog order checked for
/// requiredness (unless `ignore_required`) and against the validators'
/// answers: the resolved slots and positionals, or the first failure.
pub open spec fn resolve_args_with(
    cat: Seq<FlagDef>,
    strict: bool,
    ignore_required: bool,
    env: Seq<(Seq<char>, Seq<char>)>,
    rejections: Rejections,
    toks: Seq<Seq<char>>,
) -> Result<ScanState, Failure> {
    match tokenize(cat, strict, toks) {
        Err(f) => Err(f),
        Ok(st) => {
            let slots = resolve(cat, env, st.slots);
            match violation_from(cat, slots, ignore_required, rejections, 0) {
                Some(k) => Err(violation(cat, slots, rejections, k)),
                None => Ok(ScanState { slots, positionals: st.positionals }),
            }
        },
    }
}

/// [`resolve_args_with`] with nothing rejected.
pub open spec fn resolve_args(
    cat: Seq<FlagDef>,
    strict: bool,
    ignore_required: bool,
    env: Seq<(Seq<char>, Seq<char>)>,
    toks: Seq<Seq<char>>,
) -> Result<ScanState, Failure> {
    resolve_args_with(cat, strict, ignore_required, env, no_rejections(), toks)
}

/// What a set slot holds in a flag map: a boolean that is on, or a value.
pub open spec fn slot_value(v: Option<Seq<char>>) -> FlagValueView {
    match v {
        Some(s) => FlagValueView::Value(s),
        None => FlagValueView::Boolean(true),
    }
}

/// The flag-map entries of the set slots, in catalog order, among the first
/// `k` catalog entries.
pub open spec fn slot_entries(cat: Seq<FlagDef>, slots: Seq<SlotView>, k: int) -> Seq<
    (Seq<char>, Option<FlagValueView>),
>
    decreases k,
{
    if k <= 0 {
        seq![]
    } else {
        let before = slot_entries(cat, slots, k - 1);
        match slots[k - 1] {
            Some(v) => before.push((cat[k - 1].name@, Some(slot_value(v)))),
            None => before,
        }
    }
}

} // verus!
