use vstd::prelude::*;
use crate::distance::{chars_of, levenshtein};
use crate::error::{ErrorKind, KoralError};
use crate::flag::{FlagDef, FlagValue, FlagValueView};
use crate::model::{
    apply_plan, consume, find_long_from, find_short_from, initial_state, is_long_token,
    is_short_token, long_parts, long_step, plan_from, provided, push_positional,
    required_message, resolve, resolve_args_with, resolve_slot, scan_from, set_slot, short_step,
    slot_entries, slot_value, suggest, suggest_from, token_step, tokenize, unknown_in_group_message,
    unknown_long_message, unknown_short_message, violates, violation, violation_from, no_rejections,
    Failure, Plan, Rejections, ScanState, SlotView,
};
use crate::validator::{AcceptAll, Validator};
use crate::provider::{DefaultProvider, EnvProvider, ValueProvider};
use crate::context::{lookup, Context, FlagMap};
use crate::text::{
    char_len, char_to_string, concat3, index_of, is_number_text, lemma_find_some,
    substring, truthy,
};

verus! {

/// Tokenizer state: one slot per catalog entry and the positionals so far.
pub struct Scan {
    pub slots: Vec<Option<Option<String>>>,
    pub positionals: Vec<String>,
}

impl Scan {
    pub open spec fn spec_state(&self) -> ScanState {
        ScanState { slots: self.slots.deep_view(), positionals: self.positionals.deep_view() }
    }
}

/// `e` is the failure `f`.
pub open spec fn fails_as(e: KoralError, f: Failure) -> bool {
    e.spec_kind() == f.kind && e.spec_message() == f.message
}

/// `r` is the outcome [`resolve_args_with`] gives for these inputs: on
/// success a context with the flags that ended up set, in catalog order, and
/// the positionals; otherwise the same failure.
pub open spec fn parsed_as_with(
    cat: Seq<FlagDef>,
    strict: bool,
    ignore_required: bool,
    env: Seq<(Seq<char>, Seq<char>)>,
    rejections: Rejections,
    toks: Seq<Seq<char>>,
    r: Result<Context, KoralError>,
) -> bool {
    match resolve_args_with(cat, strict, ignore_required, env, rejections, toks) {
        Ok(st) => r matches Ok(ctx) && ctx.flags.spec_entries() == slot_entries(cat, st.slots, cat.len() as int)
            && ctx.args.deep_view() == st.positionals && ctx.extensions.spec_entries().len() == 0
            && ctx.state is None,
        Err(f) => r matches Err(e) && fails_as(e, f),
    }
}

/// [`parsed_as_with`] with nothing rejected.
pub open spec fn parsed_as(
    cat: Seq<FlagDef>,
    strict: bool,
    ignore_required: bool,
    env: Seq<(Seq<char>, Seq<char>)>,
    toks: Seq<Seq<char>>,
    r: Result<Context, KoralError>,
) -> bool {
    parsed_as_with(cat, strict, ignore_required, env, no_rejections(), toks, r)
}

/// The texts of slots holding strings.
pub open spec fn slots_view(slots: Seq<Option<Option<String>>>) -> Seq<SlotView> {
    Seq::new(slots.len(), |k: int| slots[k].deep_view())
}

/// What `validator` answers for the value payloads held in `slots`, by
/// catalog index.
pub open spec fn answers<V: Validator>(validator: V, cat: Seq<FlagDef>, slots: Seq<Option<Option<String>>>) -> Rejections {
    Seq::new(
        slots.len(),
        |k: int|
            match slots[k] {
                Some(Some(s)) => match validator.verdict(&cat[k], &s) {
                    Err(m) => Some(m@),
                    Ok(_) => None,
                },
                _ => None,
            },
    )
}

/// `r` is what [`parsed_as_with`] gives when the rejections are
/// `validator`'s answers on the resolved value payloads (strings holding
/// exactly the texts the model resolves).
pub open spec fn parsed_as_validated<V: Validator>(
    cat: Seq<FlagDef>,
    strict: bool,
    ignore_required: bool,
    env: Seq<(Seq<char>, Seq<char>)>,
    validator: V,
    toks: Seq<Seq<char>>,
    r: Result<Context, KoralError>,
) -> bool {
    exists|se: Seq<Option<Option<String>>>|
        #[trigger] parsed_as_with(cat, strict, ignore_required, env, answers(validator, cat, se), toks, r) && (
        tokenize(cat, strict, toks) matches Ok(st) ==> slots_view(se) == resolve(cat, env, st.slots))
}

proof fn lemma_first_violation(cat: Seq<FlagDef>, slots: Seq<SlotView>, ignore_required: bool, rej: Rejections, j: int, k: int)
    requires
        0 <= j <= k <= cat.len(),
        forall|x: int| j <= x < k ==> !#[trigger] violates(cat, slots, ignore_required, rej, x),
    ensures
        violation_from(cat, slots, ignore_required, rej, j) == violation_from(cat, slots, ignore_required, rej, k),
    decreases k - j,
{
    if j < k {
        lemma_first_violation(cat, slots, ignore_required, rej, j + 1, k);
    }
}

/// An executable step outcome `r`, with state `st` after it, agrees with the
/// model's outcome `s`.
pub open spec fn step_agrees(
    s: Result<(int, ScanState), Failure>,
    r: Result<usize, KoralError>,
    st: ScanState,
) -> bool {
    match s {
        Ok((j, s2)) => r matches Ok(x) && x == j && st == s2,
        Err(f) => r matches Err(e) && fails_as(e, f),
    }
}

pub open spec fn plan_items_view(items: Seq<(usize, Option<String>)>) -> Seq<(int, Option<Seq<char>>)> {
    Seq::new(items.len(), |x: int| (items[x].0 as int, items[x].1.deep_view()))
}

enum PlanExec {
    Unknown(usize),
    Ready(Vec<(usize, Option<String>)>, Option<usize>),
}

spec fn plan_agrees(p: PlanExec, q: Plan) -> bool {
    match (p, q) {
        (PlanExec::Unknown(j), Plan::Unknown(j2)) => j == j2,
        (PlanExec::Ready(items, next), Plan::Ready(items2, next2)) => plan_items_view(items@)
            == items2 && match (next, next2) {
            (Some(a), Some(b)) => a == b,
            (None, None) => true,
            _ => false,
        },
        _ => false,
    }
}

fn set_slot_exec(st: &mut Scan, k: usize, v: Option<String>)
    requires
        k < old(st).slots@.len(),
    ensures
        final(st).spec_state() == set_slot(old(st).spec_state(), k as int, v.deep_view()),
        final(st).slots@.len() == old(st).slots@.len(),
{
    let ghost v_view = v.deep_view();
    st.slots.set(k, Some(v));
    proof {
        assert(st.slots.deep_view() =~= old(st).slots.deep_view().update(k as int, Some(v_view)));
    }
}

fn push_positional_exec(st: &mut Scan, t: String)
    ensures
        final(st).spec_state() == push_positional(old(st).spec_state(), t@),
        final(st).slots@ == old(st).slots@,
{
    st.positionals.push(t);
    proof {
        assert(st.positionals.deep_view() =~= old(st).positionals.deep_view().push(t@));
    }
}

/// Whether flag `f` answers to the long name `n`.
fn matches_long(f: &FlagDef, n: &String) -> (r: bool)
    ensures
        r == f.matches_long(n@),
{
    let own = match &f.long {
        Some(l) => *l == *n,
        None => f.name == *n,
    };
    if own {
        return true;
    }
    let mut j: usize = 0;
    while j < f.aliases.len()
        invariant
            j <= f.aliases@.len(),
            forall|x: int| 0 <= x < j ==> #[trigger] f.aliases@[x]@ != n@,
        decreases f.aliases@.len() - j,
    {
        if f.aliases[j] == *n {
            return true;
        }
        j = j + 1;
    }
    false
}

/// The parser's view of one catalog: the flags, the mode and the
/// environment, borrowed for one parse.
pub struct Scanner<'a> {
    pub known_flags: &'a Vec<FlagDef>,
    pub strict: bool,
    pub ignore_required: bool,
    pub env: &'a EnvProvider,
}

/// Command line argument parser over a catalog of known flags.
pub struct Parser {
    pub known_flags: Vec<FlagDef>,
    pub strict: bool,
    pub ignore_required: bool,
    pub env: EnvProvider,
}

impl<'a> Scanner<'a> {
    pub open spec fn catalog(&self) -> Seq<FlagDef> {
        self.known_flags@
    }

    fn find_long(&self, name: &String) -> (r: Option<usize>)
        ensures
            r matches Some(k) ==> find_long_from(self.catalog(), name@, 0) == Some(k as int) && k
                < self.catalog().len(),
            r is None ==> find_long_from(self.catalog(), name@, 0) is None,
    {
        let mut k: usize = 0;
        while k < self.known_flags.len()
            invariant
                k <= self.catalog().len(),
                find_long_from(self.catalog(), name@, 0) == find_long_from(
                    self.catalog(),
                    name@,
                    k as int,
                ),
            decreases self.catalog().len() - k,
        {
            if matches_long(&self.known_flags[k], name) {
                return Some(k);
            }
            k = k + 1;
        }
        None
    }

    pub(crate) fn find_short_flag(&self, c: char) -> (r: Option<usize>)
        ensures
            r matches Some(k) ==> find_short_from(self.catalog(), c, 0) == Some(k as int) && k
                < self.catalog().len(),
            r is None ==> find_short_from(self.catalog(), c, 0) is None,
    {
        let mut k: usize = 0;
        while k < self.known_flags.len()
            invariant
                k <= self.catalog().len(),
                find_short_from(self.catalog(), c, 0) == find_short_from(
                    self.catalog(),
                    c,
                    k as int,
                ),
            decreases self.catalog().len() - k,
        {
            match self.known_flags[k].short {
                Some(s) => {
                    if s == c {
                        return Some(k);
                    }
                },
                None => {},
            }
            k = k + 1;
        }
        None
    }

    /// The "did you mean" candidate for the unknown long name `name`.
    fn suggest_flag(&self, name: &String) -> (r: Option<String>)
        ensures
            r.deep_view() == suggest(self.catalog(), name@),
    {
        let ghost cat = self.catalog();
        let unknown = chars_of(name.as_str());
        let mut best: Option<String> = None;
        let mut min_dist: usize = usize::MAX;
        let mut k: usize = 0;
        while k < self.known_flags.len()
            invariant
                k <= cat.len(),
                cat == self.catalog(),
                unknown@ == name@,
                suggest(cat, name@) == suggest_from(
                    cat,
                    name@,
                    k as int,
                    best.deep_view(),
                    min_dist as nat,
                ),
            decreases cat.len() - k,
        {
            let flag = &self.known_flags[k];
            let d = levenshtein(&unknown, &chars_of(flag.name.as_str()), 4);
            if d < min_dist && d <= 3 {
                min_dist = d;
                best = Some(String::from_str("--").concat(flag.name.as_str()));
            }
            match flag.short {
                Some(c) => {
                    let sc = vec![c];
                    proof {
                        assert(sc@ =~= seq![c]);
                    }
                    let ds = levenshtein(&unknown, &sc, 4);
                    if ds < min_dist && ds <= 1 {
                        min_dist = ds;
                        best = Some(String::from_str("-").concat(char_to_string(c).as_str()));
                    }
                },
                None => {},
            }
            k = k + 1;
        }
        best
    }

    /// Records flag `k` found just before token `next`: a boolean flag is set,
    /// a value flag takes token `next` as its payload.
    fn consume_flag_value(&self, toks: &Vec<String>, next: usize, k: usize, st: &mut Scan) -> (r:
        Result<usize, KoralError>)
        requires
            k < self.catalog().len(),
            next <= toks@.len(),
            old(st).slots@.len() == self.catalog().len(),
        ensures
            step_agrees(
                consume(self.catalog(), toks.deep_view(), next as int, k as int, old(st).spec_state()),
                r,
                final(st).spec_state(),
            ),
            final(st).slots@.len() == old(st).slots@.len(),
            r matches Ok(j) ==> next <= j <= toks@.len(),
            r is Err ==> final(st).spec_state() == old(st).spec_state(),
    {
        let flag = &self.known_flags[k];
        if flag.takes_value {
            if next < toks.len() {
                set_slot_exec(st, k, Some(toks[next].clone()));
                Ok(next + 1)
            } else {
                Err(KoralError::MissingArgument(concat3("Flag '--", flag.name.as_str(), "' requires a value")))
            }
        } else {
            set_slot_exec(st, k, None);
            Ok(next)
        }
    }

    /// One long-flag token at index `i`.
    fn parse_long_flag(&self, toks: &Vec<String>, i: usize, st: &mut Scan) -> (r: Result<usize, KoralError>)
        requires
            i < toks@.len(),
            is_long_token(toks@[i as int]@),
            old(st).slots@.len() == self.catalog().len(),
        ensures
            step_agrees(
                long_step(self.catalog(), self.strict, toks.deep_view(), i as int, old(st).spec_state()),
                r,
                final(st).spec_state(),
            ),
            final(st).slots@.len() == old(st).slots@.len(),
            r matches Ok(j) ==> i < j <= toks@.len(),
            r is Err ==> final(st).spec_state() == old(st).spec_state(),
    {
        let ghost tv = toks.deep_view();
        let total = toks.len();
        assert(i < total);
        let arg = toks[i].as_str();
        let n = char_len(arg);
        let body = substring(arg, 2, n);
        let ghost parts = long_parts(tv[i as int]);
        let (name, value) = match index_of(body.as_str(), '=') {
            Some(p) => {
                proof {
                    lemma_find_some(body@, '=', 0);
                }
                let nb = char_len(body.as_str());
                (substring(body.as_str(), 0, p), Some(substring(body.as_str(), p + 1, nb)))
            },
            None => (body, None),
        };
        proof {
            assert(name@ == parts.0);
            assert(value.deep_view() == parts.1);
        }
        match self.find_long(&name) {
            None => {
                if self.strict {
                    let head = concat3("Unknown flag '", arg, "'");
                    let msg = match self.suggest_flag(&name) {
                        Some(s) => head.concat(concat3("\n\tDid you mean '", s.as_str(), "'?").as_str()),
                        None => head,
                    };
                    proof {
                        assert(msg@ =~= unknown_long_message(tv[i as int], suggest(self.catalog(), name@)));
                    }
                    Err(KoralError::UnknownFlag(msg))
                } else {
                    push_positional_exec(st, toks[i].clone());
                    assert(st.spec_state() == push_positional(old(st).spec_state(), tv[i as int]));
                    Ok(i + 1)
                }
            },
            Some(k) => {
                assert(find_long_from(self.catalog(), parts.0, 0) == Some(k as int));
                match value {
                    Some(v) => {
                        if self.known_flags[k].takes_value {
                            let ghost vv = v@;
                            set_slot_exec(st, k, Some(v));
                            assert(parts.1 == Some(vv));
                            assert(st.spec_state() == set_slot(old(st).spec_state(), k as int, Some(vv)));
                            Ok(i + 1)
                        } else {
                            Err(KoralError::Validation(concat3("Flag '--", self.known_flags[k].name.as_str(), "' does not take a value")))
                        }
                    },
                    None => self.consume_flag_value(toks, i + 1, k, st),
                }
            },
        }
    }

    /// Plans the characters of a short-flag cluster (the token without its
    /// dash) from position 0.
    fn plan_cluster(&self, chars: &Vec<char>, body: &String) -> (r: PlanExec)
        requires
            chars@ == body@,
        ensures
            plan_agrees(r, plan_from(self.catalog(), chars@, 0, seq![])),
            r matches PlanExec::Ready(items, next) ==> (forall|x: int|
                0 <= x < items@.len() ==> (#[trigger] items@[x]).0 < self.catalog().len()) && (
            next matches Some(k) ==> k < self.catalog().len()),
            r matches PlanExec::Unknown(j) ==> j < chars@.len(),
    {
        let ghost cat = self.catalog();
        let m = chars.len();
        let mut items: Vec<(usize, Option<String>)> = Vec::new();
        proof {
            assert(plan_items_view(items@) =~= seq![]);
        }
        let mut j: usize = 0;
        while j < m
            invariant
                m == chars@.len(),
                chars@ == body@,
                cat == self.catalog(),
                j <= m,
                plan_from(cat, chars@, 0, seq![]) == plan_from(
                    cat,
                    chars@,
                    j as int,
                    plan_items_view(items@),
                ),
                forall|x: int| 0 <= x < items@.len() ==> (#[trigger] items@[x]).0 < cat.len(),
            decreases m - j,
        {
            match self.find_short_flag(chars[j]) {
                None => {
                    return PlanExec::Unknown(j);
                },
                Some(k) => {
                    if self.known_flags[k].takes_value {
                        if j + 1 < m {
                            let rest = substring(body.as_str(), j + 1, m);
                            let ghost before = items@;
                            items.push((k, Some(rest)));
                            proof {
                                assert(plan_items_view(items@) =~= plan_items_view(before).push(
                                    (k as int, Some(chars@.subrange(j + 1, m as int))),
                                ));
                            }
                            return PlanExec::Ready(items, None);
                        } else {
                            return PlanExec::Ready(items, Some(k));
                        }
                    } else {
                        let ghost before = items@;
                        items.push((k, None));
                        proof {
                            assert(plan_items_view(items@) =~= plan_items_view(before).push(
                                (k as int, None),
                            ));
                        }
                        j = j + 1;
                    }
                },
            }
        }
        PlanExec::Ready(items, None)
    }

    /// Makes the planned assignments in order.
    fn apply_plan_exec(items: &Vec<(usize, Option<String>)>, st: &mut Scan)
        requires
            forall|x: int| 0 <= x < items@.len() ==> (#[trigger] items@[x]).0 < old(st).slots@.len(),
        ensures
            final(st).spec_state() == apply_plan(old(st).spec_state(), plan_items_view(items@)),
            final(st).slots@.len() == old(st).slots@.len(),
    {
        let ghost iv = plan_items_view(items@);
        let ghost st0 = st.spec_state();
        let mut m: usize = 0;
        proof {
            assert(iv.take(0).len() == 0);
        }
        while m < items.len()
            invariant
                m <= items@.len(),
                iv == plan_items_view(items@),
                st.slots@.len() == old(st).slots@.len(),
                forall|x: int| 0 <= x < items@.len() ==> (#[trigger] items@[x]).0 < st.slots@.len(),
                st.spec_state() == apply_plan(st0, iv.take(m as int)),
            decreases items@.len() - m,
        {
            let k = items[m].0;
            let v = match &items[m].1 {
                Some(x) => Some(x.clone()),
                None => None,
            };
            set_slot_exec(st, k, v);
            proof {
                assert(iv.take(m + 1).drop_last() =~= iv.take(m as int));
            }
            m = m + 1;
        }
        proof {
            assert(iv.take(m as int) =~= iv);
        }
    }

    /// One short-flag cluster token at index `i`: the whole cluster applies,
    /// or none of it.
    fn parse_short_flags(&self, toks: &Vec<String>, i: usize, st: &mut Scan) -> (r: Result<usize, KoralError>)
        requires
            i < toks@.len(),
            is_short_token(toks@[i as int]@),
            !is_long_token(toks@[i as int]@),
            old(st).slots@.len() == self.catalog().len(),
        ensures
            step_agrees(
                short_step(self.catalog(), self.strict, toks.deep_view(), i as int, old(st).spec_state()),
                r,
                final(st).spec_state(),
            ),
            final(st).slots@.len() == old(st).slots@.len(),
            r matches Ok(j) ==> i < j <= toks@.len(),
            r is Err ==> final(st).spec_state() == old(st).spec_state(),
    {
        let ghost tv = toks.deep_view();
        let ghost cat = self.catalog();
        let total = toks.len();
        assert(i < total);
        let arg = toks[i].as_str();
        let n = char_len(arg);
        let body = substring(arg, 1, n);
        let chars = chars_of(body.as_str());
        assert(chars@ == tv[i as int].subrange(1, tv[i as int].len() as int));
        match self.find_short_flag(chars[0]) {
            None => {
                if is_number_text(body.as_str()) || !self.strict {
                    push_positional_exec(st, toks[i].clone());
                    Ok(i + 1)
                } else {
                    let c = substring(arg, 1, 2);
                    let msg = concat3("Unknown short flag '", c.as_str(), "' in '").concat(arg).concat("'");
                    proof {
                        assert(c@ =~= seq![chars@[0]]);
                        assert(msg@ =~= unknown_short_message(chars@[0], tv[i as int]));
                    }
                    Err(KoralError::UnknownFlag(msg))
                }
            },
            Some(_) => {
                match self.plan_cluster(&chars, &body) {
                    PlanExec::Unknown(j) => {
                        if self.strict {
                            let c = substring(arg, j + 1, j + 2);
                            let msg = concat3("Unknown short flag '-", c.as_str(), "' in group '").concat(arg).concat("'");
                            proof {
                                assert(c@ =~= seq![chars@[j as int]]);
                                assert(msg@ =~= unknown_in_group_message(chars@[j as int], tv[i as int]));
                            }
                            Err(KoralError::UnknownFlag(msg))
                        } else {
                            push_positional_exec(st, toks[i].clone());
                            Ok(i + 1)
                        }
                    },
                    PlanExec::Ready(items, next) => {
                        match next {
                            Some(k) => {
                                if self.known_flags[k].takes_value && i + 1 >= toks.len() {
                                    return Err(KoralError::MissingArgument(concat3("Flag '--", self.known_flags[k].name.as_str(), "' requires a value")));
                                }
                            },
                            None => {},
                        }
                        Self::apply_plan_exec(&items, st);
                        match next {
                            None => Ok(i + 1),
                            Some(k) => self.consume_flag_value(toks, i + 1, k, st),
                        }
                    },
                }
            },
        }
    }

    /// Tokenizes `toks`: the flags they set and the positionals, or the first
    /// failure.
    pub fn tokenize(&self, toks: &Vec<String>) -> (r: Result<Scan, KoralError>)
        ensures
            match tokenize(self.catalog(), self.strict, toks.deep_view()) {
                Ok(s) => r matches Ok(sc) && sc.spec_state() == s && sc.slots@.len() == self.catalog().len(),
                Err(f) => r matches Err(e) && fails_as(e, f),
            },
    {
        let ghost tv = toks.deep_view();
        let ghost cat = self.catalog();
        let mut slots: Vec<Option<Option<String>>> = Vec::new();
        let mut k: usize = 0;
        while k < self.known_flags.len()
            invariant
                k <= cat.len(),
                cat == self.catalog(),
                slots@.len() == k,
                forall|x: int| 0 <= x < k ==> #[trigger] slots@[x] is None,
            decreases cat.len() - k,
        {
            slots.push(None);
            k = k + 1;
        }
        let mut st = Scan { slots, positionals: Vec::new() };
        proof {
            assert(st.spec_state().slots =~= initial_state(cat.len()).slots);
            assert(st.spec_state().positionals =~= initial_state(cat.len()).positionals);
        }
        let total = toks.len();
        let mut i: usize = 0;
        while i < total
            invariant
                total == toks@.len(),
                tv == toks.deep_view(),
                cat == self.catalog(),
                i <= total,
                st.slots@.len() == cat.len(),
                tokenize(cat, self.strict, tv) == scan_from(cat, self.strict, tv, i as int, st.spec_state()),
            decreases total - i,
        {
            let arg = toks[i].as_str();
            let n = char_len(arg);
            let dash0 = n >= 1 && arg.get_char(0) == '-';
            let dash1 = n >= 2 && arg.get_char(1) == '-';
            if n == 2 && dash0 && dash1 {
                proof {
                    reveal_strlit("--");
                    assert(tv[i as int] =~= "--"@);
                }
                let ghost before = st.spec_state();
                let mut x = i + 1;
                while x < total
                    invariant
                        total == toks@.len(),
                        tv == toks.deep_view(),
                        i < x <= total,
                        st.slots@.len() == cat.len(),
                        cat == self.catalog(),
                        st.spec_state().slots == before.slots,
                        st.spec_state().positionals == before.positionals + tv.subrange(i + 1, x as int),
                    decreases total - x,
                {
                    push_positional_exec(&mut st, toks[x].clone());
                    proof {
                        assert(before.positionals + tv.subrange(i + 1, x + 1) =~= (before.positionals
                            + tv.subrange(i + 1, x as int)).push(tv[x as int]));
                    }
                    x = x + 1;
                }
                return Ok(st);
            }
            proof {
                reveal_strlit("--");
                if tv[i as int] == "--"@ {
                    assert(tv[i as int].len() == 2);
                }
            }
            let ghost st0 = st.spec_state();
            let step = if dash0 && dash1 {
                self.parse_long_flag(toks, i, &mut st)
            } else if dash0 && n > 1 {
                self.parse_short_flags(toks, i, &mut st)
            } else {
                push_positional_exec(&mut st, toks[i].clone());
                Ok(i + 1)
            };
            assert(step_agrees(token_step(cat, self.strict, tv, i as int, st0), step, st.spec_state()));
            match step {
                Err(e) => {
                    return Err(e);
                },
                Ok(j) => {
                    i = j;
                },
            }
        }
        Ok(st)
    }

    /// Fills the slots the tokens left absent from the providers: the
    /// environment, then the declared default.
    fn apply_defaults(&self, slots: &mut Vec<Option<Option<String>>>)
        requires
            old(slots)@.len() == self.catalog().len(),
        ensures
            final(slots).deep_view() == resolve(self.catalog(), self.env.spec_vars(), old(slots).deep_view()),
            final(slots)@.len() == old(slots)@.len(),
    {
        let ghost cat = self.catalog();
        let ghost env = self.env.spec_vars();
        let ghost s0 = slots.deep_view();
        let ghost target = resolve(cat, env, s0);
        let n = self.known_flags.len();
        let mut k: usize = 0;
        while k < n
            invariant
                n == cat.len(),
                cat == self.catalog(),
                env == self.env.spec_vars(),
                target == resolve(cat, env, s0),
                s0.len() == n,
                k <= n,
                slots@.len() == n,
                forall|x: int| 0 <= x < k ==> #[trigger] slots.deep_view()[x] == target[x],
                forall|x: int| k <= x < n ==> #[trigger] slots.deep_view()[x] == s0[x],
            decreases n - k,
        {
            let flag = &self.known_flags[k];
            assert(target[k as int] == resolve_slot(cat[k as int], env, s0[k as int]));
            assert(slots.deep_view()[k as int] == slots@[k as int].deep_view());
            if slots[k].is_none() {
                let offered = match self.env.get_value(flag) {
                    Some(v) => Some(v),
                    None => DefaultProvider.get_value(flag),
                };
                assert(offered.deep_view() == provided(cat[k as int], env));
                assert(s0[k as int] is None);
                let ghost before = slots.deep_view();
                match offered {
                    Some(v) => {
                        let ghost vv = v@;
                        if flag.takes_value {
                            slots.set(k, Some(Some(v)));
                            proof {
                                assert(slots.deep_view() =~= before.update(k as int, Some(Some(vv))));
                            }
                        } else if truthy(v.as_str()) {
                            slots.set(k, Some(None));
                            proof {
                                assert(slots.deep_view() =~= before.update(k as int, Some(None)));
                            }
                        }
                    },
                    None => {},
                }
            }
            assert(slots.deep_view()[k as int] == target[k as int]);
            k = k + 1;
        }
        proof {
            assert(slots.deep_view() =~= target);
        }
    }

    /// Checks each flag in catalog order: a required flag must be present
    /// (unless required flags go unchecked), and a value payload must be
    /// accepted by `validator`, if there is one. The first flag that breaks
    /// either is the error. Also returns the validators' answers.
    fn validate_constraints<V: Validator>(&self, slots: &Vec<Option<Option<String>>>, validator: Option<&V>) -> (out: (
        Result<(), KoralError>,
        Ghost<Rejections>,
    ))
        requires
            slots@.len() == self.catalog().len(),
        ensures
            validator is None ==> out.1@ == no_rejections(),
            validator matches Some(v) ==> out.1@ == answers(*v, self.catalog(), slots@),
            match violation_from(self.catalog(), slots.deep_view(), self.ignore_required, out.1@, 0) {
                Some(k) => out.0 matches Err(e) && fails_as(e, violation(self.catalog(), slots.deep_view(), out.1@, k)),
                None => out.0 is Ok,
            },
    {
        let ghost cat = self.catalog();
        let ghost sv = slots.deep_view();
        let ghost n = cat.len();
        let ghost rej = match validator {
            Some(v) => answers(*v, cat, slots@),
            None => no_rejections(),
        };
        let mut k: usize = 0;
        while k < self.known_flags.len()
            invariant
                cat == self.catalog(),
                sv == slots.deep_view(),
                n == cat.len(),
                k <= cat.len(),
                slots@.len() == cat.len(),
                rej == match validator {
                    Some(v) => answers(*v, cat, slots@),
                    None => no_rejections(),
                },
                forall|x: int| 0 <= x < k ==> !#[trigger] violates(cat, sv, self.ignore_required, rej, x),
            decreases cat.len() - k,
        {
            let flag = &self.known_flags[k];
            assert(sv[k as int] == slots@[k as int].deep_view());
            if !self.ignore_required && flag.required && slots[k].is_none() {
                assert(violates(cat, sv, self.ignore_required, rej, k as int));
                proof {
                    lemma_first_violation(cat, sv, self.ignore_required, rej, 0, k as int);
                }
                return (Err(KoralError::MissingArgument(concat3("Required flag '--", flag.name.as_str(), "' is missing"))), Ghost(rej));
            }
            match (&slots[k], validator) {
                (Some(Some(val)), Some(v)) => {
                    match v.validate(flag, val) {
                        Ok(()) => {},
                        Err(msg) => {
                            assert(violates(cat, sv, self.ignore_required, rej, k as int));
                            proof {
                                lemma_first_violation(cat, sv, self.ignore_required, rej, 0, k as int);
                            }
                            let text = concat3("Invalid value for flag '", flag.name.as_str(), "': ").concat(msg.as_str());
                            return (Err(KoralError::Validation(text)), Ghost(rej));
                        },
                    }
                },
                _ => {},
            }
            assert(!violates(cat, sv, self.ignore_required, rej, k as int));
            k = k + 1;
        }
        proof {
            lemma_first_violation(cat, sv, self.ignore_required, rej, 0, n as int);
        }
        (Ok(()), Ghost(rej))
    }

    /// The flag map of the set slots, in catalog order.
    fn slots_to_map(&self, slots: Vec<Option<Option<String>>>) -> (r: FlagMap)
        requires
            slots@.len() == self.catalog().len(),
        ensures
            r.spec_entries() == slot_entries(self.catalog(), slots.deep_view(), self.catalog().len() as int),
    {
        let ghost cat = self.catalog();
        let ghost sv = slots.deep_view();
        let mut entries: Vec<(String, Option<FlagValue>)> = Vec::new();
        let mut k: usize = 0;
        while k < slots.len()
            invariant
                cat == self.catalog(),
                sv == slots.deep_view(),
                k <= slots@.len(),
                slots@.len() == cat.len(),
                entries.deep_view() == slot_entries(cat, sv, k as int),
            decreases slots@.len() - k,
        {
            match &slots[k] {
                Some(v) => {
                    let ghost before = entries.deep_view();
                    let payload = match v {
                        Some(x) => Some(FlagValue::Value(x.clone())),
                        None => Some(FlagValue::Boolean(true)),
                    };
                    entries.push((self.known_flags[k].name.clone(), payload));
                    proof {
                        assert(entries.deep_view() =~= before.push((cat[k as int].name@, Some(slot_value(sv[k as int].unwrap())))));
                    }
                },
                None => {},
            }
            k = k + 1;
        }
        FlagMap { entries }
    }

    /// Parses `args` (without the program name): tokenizing, value
    /// providers, then each flag checked for requiredness and, if there is a
    /// validator, by it. On success the context holds the flags that ended up
    /// set, in catalog order, and the positionals.
    pub fn parse_with<V: Validator>(&self, args: &Vec<String>, validator: Option<&V>) -> (r: Result<Context, KoralError>)
        ensures
            validator is None ==> parsed_as(self.catalog(), self.strict, self.ignore_required, self.env.spec_vars(), args.deep_view(), r),
            validator matches Some(v) ==> parsed_as_validated(self.catalog(), self.strict, self.ignore_required, self.env.spec_vars(), *v, args.deep_view(), r),
    {
        let ghost cat = self.catalog();
        let ghost envv = self.env.spec_vars();
        let ghost tv = args.deep_view();
        let scan = match self.tokenize(args) {
            Ok(s) => s,
            Err(e) => {
                let r = Err(e);
                proof {
                    assert(parsed_as_with(cat, self.strict, self.ignore_required, envv, no_rejections(), tv, r));
                    if let Some(v) = validator {
                        let se = Seq::<Option<Option<String>>>::empty();
                        assert(parsed_as_with(cat, self.strict, self.ignore_required, envv, answers(*v, cat, se), tv, r));
                    }
                }
                return r;
            },
        };
        let ghost st = scan.spec_state();
        let Scan { mut slots, positionals } = scan;
        self.apply_defaults(&mut slots);
        let ghost se = slots@;
        proof {
            assert(slots_view(se) =~= slots.deep_view());
        }
        let (checked, Ghost(rej)) = self.validate_constraints(&slots, validator);
        match checked {
            Ok(()) => {},
            Err(e) => {
                let r = Err(e);
                assert(parsed_as_with(cat, self.strict, self.ignore_required, envv, rej, tv, r));
                return r;
            },
        }
        let flags = self.slots_to_map(slots);
        let r = Ok(Context::from_parts(flags, positionals));
        assert(parsed_as_with(cat, self.strict, self.ignore_required, envv, rej, tv, r));
        r
    }

    /// Parses `args` with no validator.
    pub fn parse(&self, args: &Vec<String>) -> (r: Result<Context, KoralError>)
        ensures
            parsed_as(self.catalog(), self.strict, self.ignore_required, self.env.spec_vars(), args.deep_view(), r),
    {
        self.parse_with(args, None::<&AcceptAll>)
    }
}

impl Parser {
    pub open spec fn catalog(&self) -> Seq<FlagDef> {
        self.known_flags@
    }

    /// The scanner over this parser's catalog and settings.
    pub fn scanner(&self) -> (r: Scanner)
        ensures
            r.catalog() == self.catalog(),
            r.strict == self.strict,
            r.ignore_required == self.ignore_required,
            r.env == &self.env,
    {
        Scanner {
            known_flags: &self.known_flags,
            strict: self.strict,
            ignore_required: self.ignore_required,
            env: &self.env,
        }
    }


    /// A loose parser over `flags` that enforces required flags and sees an
    /// empty environment.
    pub fn new(flags: Vec<FlagDef>) -> (r: Parser)
        ensures
            r.known_flags == flags,
            !r.strict,
            !r.ignore_required,
            r.env.spec_vars().len() == 0,
    {
        Parser { known_flags: flags, strict: false, ignore_required: false, env: EnvProvider::empty() }
    }

    /// Sets strict mode: unknown flags are errors instead of positionals.
    pub fn strict(self, strict: bool) -> (r: Parser)
        ensures
            r == (Parser { strict, ..self }),
    {
        Parser { strict, ..self }
    }

    /// Sets whether required flags go unchecked (as for help output).
    pub fn ignore_required(self, ignore: bool) -> (r: Parser)
        ensures
            r == (Parser { ignore_required: ignore, ..self }),
    {
        Parser { ignore_required: ignore, ..self }
    }

    /// Sets the environment snapshot that environment providers read.
    pub fn with_env(self, env: EnvProvider) -> (r: Parser)
        ensures
            r == (Parser { env, ..self }),
    {
        Parser { env, ..self }
    }


    /// Tokenizes `args`: the flags they set and the positionals, or the first
    /// failure.
    pub fn tokenize(&self, args: &Vec<String>) -> (r: Result<Scan, KoralError>)
        ensures
            match tokenize(self.catalog(), self.strict, args.deep_view()) {
                Ok(s) => r matches Ok(sc) && sc.spec_state() == s && sc.slots@.len() == self.catalog().len(),
                Err(f) => r matches Err(e) && fails_as(e, f),
            },
    {
        self.scanner().tokenize(args)
    }

    /// Parses `args` (without the program name): tokenizing, value
    /// providers, then the required-flag check. On success the context holds
    /// the flags that ended up set, in catalog order, and the positionals.
    pub fn parse(&self, args: &Vec<String>) -> (r: Result<Context, KoralError>)
        ensures
            parsed_as(self.catalog(), self.strict, self.ignore_required, self.env.spec_vars(), args.deep_view(), r),
    {
        self.scanner().parse(args)
    }

    /// [`Parser::parse`], with each value payload also checked by
    /// `validator`: per flag in catalog order, requiredness first, then the
    /// validator. The result is the model's when the rejections are the
    /// validator's verdicts on the resolved payloads: the first rejected flag
    /// gives a `Validation` error with message
    /// `Invalid value for flag '<name>': <reason>`.
    pub fn parse_validated<V: Validator>(&self, args: &Vec<String>, validator: &V) -> (r: Result<
        Context,
        KoralError,
    >)
        ensures
            parsed_as_validated(self.catalog(), self.strict, self.ignore_required, self.env.spec_vars(), *validator, args.deep_view(), r),
    {
        self.scanner().parse_with(args, Some(validator))
    }
}

/// First index at or after `k` of a required flag that `entries` lacks.
pub open spec fn unmet_from(flags: Seq<FlagDef>, entries: Seq<(Seq<char>, Option<FlagValueView>)>, k: int) -> Option<int>
    decreases flags.len() - k,
{
    if k < 0 || k >= flags.len() {
        None
    } else if flags[k].required && lookup(entries, flags[k].name@) is None {
        Some(k)
    } else {
        unmet_from(flags, entries, k + 1)
    }
}

/// Checks that every required flag of `flags` has an entry in `flags_map`;
/// the first one missing, in catalog order, is the error.
pub fn validate_required_flags(flags: &Vec<FlagDef>, flags_map: &FlagMap) -> (r: Result<(), KoralError>)
    ensures
        match unmet_from(flags@, flags_map.spec_entries(), 0) {
            Some(k) => r matches Err(e) && e.spec_kind() == ErrorKind::MissingArgument
                && e.spec_message() == required_message(flags@[k].name@),
            None => r is Ok,
        },
{
    let mut k: usize = 0;
    while k < flags.len()
        invariant
            k <= flags@.len(),
            unmet_from(flags@, flags_map.spec_entries(), 0) == unmet_from(flags@, flags_map.spec_entries(), k as int),
        decreases flags@.len() - k,
    {
        let flag = &flags[k];
        if flag.required && !flags_map.contains_key(flag.name.as_str()) {
            return Err(KoralError::MissingArgument(concat3("Required flag '--", flag.name.as_str(), "' is missing")));
        }
        k = k + 1;
    }
    Ok(())
}

} // verus!
