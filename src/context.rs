use vstd::prelude::*;
use crate::error::KoralError;
use crate::flag::{found_value, Flag, FlagValue, FlagValueView};
use crate::text::concat3;

verus! {

/// First entry for `name` in `s` at or after index `i`.
pub open spec fn lookup_from(s: Seq<(Seq<char>, Option<FlagValueView>)>, name: Seq<char>, i: int) -> Option<
    Option<FlagValueView>,
>
    decreases s.len() - i,
{
    if i < 0 || i >= s.len() {
        None
    } else if s[i].0 == name {
        Some(s[i].1)
    } else {
        lookup_from(s, name, i + 1)
    }
}

/// What a flag map holds for `name`: `None` if it has no key `name`;
/// otherwise `Some` of the entry, which is `None` for a declared flag with no
/// value, a boolean, or a value.
pub open spec fn lookup(s: Seq<(Seq<char>, Option<FlagValueView>)>, name: Seq<char>) -> Option<Option<FlagValueView>> {
    lookup_from(s, name, 0)
}

proof fn lemma_lookup_update_other(
    s: Seq<(Seq<char>, Option<FlagValueView>)>,
    p: int,
    e: (Seq<char>, Option<FlagValueView>),
    n: Seq<char>,
    i: int,
)
    requires
        0 <= p < s.len(),
        0 <= i,
        e.0 == s[p].0,
        n != e.0,
    ensures
        lookup_from(s.update(p, e), n, i) == lookup_from(s, n, i),
    decreases s.len() - i,
{
    if i < s.len() {
        lemma_lookup_update_other(s, p, e, n, i + 1);
    }
}

proof fn lemma_lookup_update_same(
    s: Seq<(Seq<char>, Option<FlagValueView>)>,
    p: int,
    e: (Seq<char>, Option<FlagValueView>),
    i: int,
)
    requires
        0 <= i <= p < s.len(),
        e.0 == s[p].0,
        forall|x: int| i <= x < p ==> (#[trigger] s[x]).0 != e.0,
    ensures
        lookup_from(s.update(p, e), e.0, i) == Some(e.1),
    decreases p - i,
{
    if i < p {
        lemma_lookup_update_same(s, p, e, i + 1);
    }
}

proof fn lemma_lookup_push(
    s: Seq<(Seq<char>, Option<FlagValueView>)>,
    e: (Seq<char>, Option<FlagValueView>),
    n: Seq<char>,
    i: int,
)
    requires
        0 <= i <= s.len(),
        forall|x: int| i <= x < s.len() ==> (#[trigger] s[x]).0 != e.0,
    ensures
        lookup_from(s.push(e), n, i) == if n == e.0 {
            Some(e.1)
        } else {
            lookup_from(s, n, i)
        },
    decreases s.len() - i,
{
    assert(s.push(e)[s.len() as int] == e);
    if i < s.len() {
        assert(s.push(e)[i] == s[i]);
        lemma_lookup_push(s, e, n, i + 1);
    }
}

/// Whether two strings hold the same characters.
pub fn str_eq(a: &str, b: &str) -> (r: bool)
    ensures
        r == (a@ == b@),
{
    let n = a.unicode_len();
    if n != b.unicode_len() {
        return false;
    }
    let mut i: usize = 0;
    while i < n
        invariant
            n == a@.len() == b@.len(),
            i <= n,
            forall|x: int| 0 <= x < i ==> a@[x] == b@[x],
        decreases n - i,
    {
        if a.get_char(i) != b.get_char(i) {
            return false;
        }
        i = i + 1;
    }
    assert(a@ =~= b@);
    true
}

/// A mapping from flag name to optional payload, in insertion order.
#[derive(Debug, Clone)]
pub struct FlagMap {
    pub entries: Vec<(String, Option<FlagValue>)>,
}

impl FlagMap {
    pub open spec fn spec_entries(&self) -> Seq<(Seq<char>, Option<FlagValueView>)> {
        self.entries.deep_view()
    }

    pub open spec fn spec_get(&self, name: Seq<char>) -> Option<Option<FlagValueView>> {
        lookup(self.spec_entries(), name)
    }

    /// An empty map.
    pub fn new() -> (r: FlagMap)
        ensures
            r.spec_entries().len() == 0,
            forall|n: Seq<char>| #[trigger] r.spec_get(n) is None,
    {
        FlagMap { entries: Vec::new() }
    }

    /// Sets `name` to `value`, replacing what it held.
    pub fn insert(&mut self, name: String, value: Option<FlagValue>)
        ensures
            forall|n: Seq<char>|
                #[trigger] final(self).spec_get(n) == if n == name@ {
                    Some(value.deep_view())
                } else {
                    old(self).spec_get(n)
                },
    {
        let ghost s = self.spec_entries();
        let ghost e = (name@, value.deep_view());
        let mut p: usize = 0;
        while p < self.entries.len()
            invariant
                s == self.spec_entries(),
                e == (name@, value.deep_view()),
                s == old(self).spec_entries(),
                p <= s.len(),
                forall|x: int| 0 <= x < p ==> (#[trigger] s[x]).0 != name@,
            decreases s.len() - p,
        {
            let same = self.entries[p].0 == name;
            if same {
                self.entries.set(p, (name, value));
                proof {
                    assert(self.spec_entries() =~= s.update(p as int, e));
                    assert forall|n: Seq<char>|
                        #[trigger] lookup(self.spec_entries(), n) == if n == e.0 {
                            Some(e.1)
                        } else {
                            lookup(s, n)
                        } by {
                        if n == e.0 {
                            lemma_lookup_update_same(s, p as int, e, 0);
                        } else {
                            lemma_lookup_update_other(s, p as int, e, n, 0);
                        }
                    }
                }
                return;
            }
            p = p + 1;
        }
        self.entries.push((name, value));
        proof {
            assert(self.spec_entries() =~= s.push(e));
            assert forall|n: Seq<char>|
                #[trigger] lookup(self.spec_entries(), n) == if n == e.0 {
                    Some(e.1)
                } else {
                    lookup(s, n)
                } by {
                lemma_lookup_push(s, e, n, 0);
            }
        }
    }

    fn find(&self, name: &str) -> (r: Option<usize>)
        ensures
            r matches Some(p) ==> p < self.spec_entries().len() && self.spec_get(name@) == Some(
                self.spec_entries()[p as int].1,
            ),
            r is None ==> self.spec_get(name@) is None,
    {
        let mut p: usize = 0;
        while p < self.entries.len()
            invariant
                p <= self.spec_entries().len(),
                self.spec_get(name@) == lookup_from(self.spec_entries(), name@, p as int),
            decreases self.spec_entries().len() - p,
        {
            if str_eq(self.entries[p].0.as_str(), name) {
                return Some(p);
            }
            p = p + 1;
        }
        None
    }

    /// What the map holds for `name`.
    pub fn get(&self, name: &str) -> (r: Option<&Option<FlagValue>>)
        ensures
            match self.spec_get(name@) {
                Some(v) => r matches Some(x) && x.deep_view() == v,
                None => r is None,
            },
    {
        match self.find(name) {
            Some(p) => Some(&self.entries[p].1),
            None => None,
        }
    }

    /// Whether the map holds `name`.
    pub fn contains_key(&self, name: &str) -> (r: bool)
        ensures
            r == self.spec_get(name@) is Some,
    {
        self.find(name).is_some()
    }
}

/// What the first `k` simple flags put in a context for `name`: what the
/// last of them named `name` found in `args`, no value included; `None` when
/// none of them is named `name`.
pub open spec fn found_upto(flags: Seq<Flag>, args: Seq<Seq<char>>, name: Seq<char>, k: int) -> Option<
    Option<FlagValueView>,
>
    decreases k,
{
    if k <= 0 {
        None
    } else if flags[k - 1].name@ == name {
        Some(found_value(flags[k - 1], args))
    } else {
        found_upto(flags, args, name, k - 1)
    }
}

/// The resolved flags, the positional arguments and the values middleware
/// handed to handlers, for one invocation.
#[derive(Debug, Clone)]
pub struct Context {
    /// Positional arguments.
    pub args: Vec<String>,
    /// Flag name to what the flag holds.
    pub flags: FlagMap,
    /// Values inserted by middleware, by key.
    pub extensions: FlagMap,
    /// Shared application state: its type identifier and its value.
    pub state: Option<(String, String)>,
}

impl Context {
    /// A context over the arguments `args`, with a key for each of `flags`
    /// holding what looking the flag up directly in `args` found (no value
    /// if nothing).
    pub fn new(args: Vec<String>, flags: Vec<Flag>) -> (r: Context)
        ensures
            r.args == args,
            forall|n: Seq<char>| #[trigger] r.flags.spec_get(n) == found_upto(flags@, args.deep_view(), n, flags@.len() as int),
            r.extensions.spec_entries().len() == 0,
            r.state is None,
    {
        let mut map = FlagMap::new();
        let mut k: usize = 0;
        while k < flags.len()
            invariant
                k <= flags@.len(),
                forall|n: Seq<char>| #[trigger] map.spec_get(n) == found_upto(flags@, args.deep_view(), n, k as int),
            decreases flags@.len() - k,
        {
            let flag = &flags[k];
            let found = flag.value(&args);
            map.insert(flag.name.clone(), found);
            k = k + 1;
        }
        Context { args, flags: map, extensions: FlagMap::new(), state: None }
    }

    /// A context over resolved flags and positionals, with no extensions and
    /// no shared state.
    pub fn from_parts(flags: FlagMap, args: Vec<String>) -> (r: Context)
        ensures
            r.flags == flags,
            r.args == args,
            r.extensions.spec_entries().len() == 0,
            r.state is None,
    {
        Context { args, flags, extensions: FlagMap::new(), state: None }
    }

    /// Whether boolean flag `name` is set.
    pub fn bool_flag(&self, name: &str) -> (r: bool)
        ensures
            r == (self.flags.spec_get(name@) matches Some(Some(FlagValueView::Boolean(b))) && b),
    {
        match self.flags.get(name) {
            Some(Some(FlagValue::Boolean(b))) => *b,
            _ => false,
        }
    }

    /// The payload of value flag `name`, if it has one.
    pub fn value_flag(&self, name: &str) -> (r: Option<String>)
        ensures
            r.deep_view() == match self.flags.spec_get(name@) {
                Some(Some(FlagValueView::Value(v))) => Some(v),
                _ => None,
            },
    {
        match self.flags.get(name) {
            Some(Some(FlagValue::Value(v))) => Some(v.clone()),
            _ => None,
        }
    }

    /// The stored payload of flag `name`, as a typed flag reads it: a value
    /// flag's text, or `None` for a boolean flag that is on. A flag that is
    /// absent, off or declared without a value is a `MissingArgument`
    /// naming it.
    pub fn flag_payload(&self, name: &str) -> (r: Result<Option<String>, KoralError>)
        ensures
            match self.flags.spec_get(name@) {
                Some(Some(FlagValueView::Value(v))) => r matches Ok(Some(x)) && x@ == v,
                Some(Some(FlagValueView::Boolean(true))) => r matches Ok(None),
                _ => r matches Err(KoralError::MissingArgument(m)) && m@ == "Flag '"@ + name@
                    + "' not found"@,
            },
    {
        match self.flags.get(name) {
            Some(Some(FlagValue::Value(v))) => Ok(Some(v.clone())),
            Some(Some(FlagValue::Boolean(true))) => Ok(None),
            _ => Err(KoralError::MissingArgument(concat3("Flag '", name, "' not found"))),
        }
    }

    /// The text middleware stored as extension `key`; none is a
    /// `MissingArgument` naming the key.
    pub fn extension_text(&self, key: &str) -> (r: Result<String, KoralError>)
        ensures
            match self.extensions.spec_get(key@) {
                Some(Some(FlagValueView::Value(v))) => r matches Ok(x) && x@ == v,
                _ => r matches Err(KoralError::MissingArgument(m)) && m@ == "Extension '"@ + key@
                    + "' not found"@,
            },
    {
        match self.get_extension(key) {
            Some(v) => Ok(v),
            None => Err(KoralError::MissingArgument(concat3("Extension '", key, "' not found"))),
        }
    }

    /// Inserts or replaces the extension `key`.
    pub fn insert_extension(&mut self, key: String, value: String)
        ensures
            forall|k: Seq<char>|
                #[trigger] final(self).extensions.spec_get(k) == if k == key@ {
                    Some(Some(FlagValueView::Value(value@)))
                } else {
                    old(self).extensions.spec_get(k)
                },
            final(self).flags == old(self).flags,
            final(self).args == old(self).args,
            final(self).state == old(self).state,
    {
        self.extensions.insert(key, Some(FlagValue::Value(value)));
    }

    /// The extension `key`, if middleware inserted one.
    pub fn get_extension(&self, key: &str) -> (r: Option<String>)
        ensures
            r.deep_view() == match self.extensions.spec_get(key@) {
                Some(Some(FlagValueView::Value(v))) => Some(v),
                _ => None,
            },
    {
        match self.extensions.get(key) {
            Some(Some(FlagValue::Value(v))) => Some(v.clone()),
            _ => None,
        }
    }

    /// This context with shared state `value` of type `type_id`.
    pub fn with_state(self, type_id: &str, value: String) -> (r: Context)
        ensures
            r.state matches Some(s) && s.0@ == type_id@ && s.1 == value,
            r.flags == self.flags,
            r.args == self.args,
            r.extensions == self.extensions,
    {
        Context { state: Some((String::from_str(type_id), value)), ..self }
    }

    /// The shared state, if present and of type `type_id`.
    pub fn state(&self, type_id: &str) -> (r: Option<String>)
        ensures
            match self.state {
                Some(s) => if s.0@ == type_id@ {
                    r matches Some(v) && v@ == s.1@
                } else {
                    r is None
                },
                None => r is None,
            },
    {
        match &self.state {
            Some(s) => {
                if str_eq(s.0.as_str(), type_id) {
                    Some(s.1.clone())
                } else {
                    None
                }
            },
            None => None,
        }
    }
}

} // verus!
