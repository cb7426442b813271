use vstd::prelude::*;
use crate::context::str_eq;
use crate::text::char_len;

verus! {

/// Declarative metadata for one flag of a command's catalog.
#[derive(Debug, Clone)]
pub struct FlagDef {
    /// Canonical name, unique within the owning command.
    pub name: String,
    /// Short form (`-v`).
    pub short: Option<char>,
    /// Long form when it differs from the name (`--long`).
    pub long: Option<String>,
    /// Further long forms accepted for this flag.
    pub aliases: Vec<String>,
    /// Help text.
    pub help: String,
    /// Whether the flag carries a value (`--name value`) or is boolean.
    pub takes_value: bool,
    /// Value used when neither the tokens nor the environment give one.
    pub default_value: Option<String>,
    /// Environment variable consulted when the tokens give no value.
    pub env: Option<String>,
    /// Whether the flag must be present once all providers ran.
    pub required: bool,
    /// Display name of the value in help output.
    pub value_name: Option<String>,
    /// Heading under which help output groups the flag.
    pub help_heading: Option<String>,
}

impl FlagDef {
    /// The long form that tokens are matched against: `long` if declared,
    /// else the name.
    pub open spec fn spec_long_name(self) -> Seq<char> {
        match self.long {
            Some(l) => l@,
            None => self.name@,
        }
    }

    /// `n` is one of the declared aliases.
    pub open spec fn has_alias(self, n: Seq<char>) -> bool {
        exists|j: int| 0 <= j < self.aliases@.len() && #[trigger] self.aliases@[j]@ == n
    }

    /// A long-flag token body `n` names this flag.
    pub open spec fn matches_long(self, n: Seq<char>) -> bool {
        self.spec_long_name() == n || self.has_alias(n)
    }

    /// A boolean flag named `name`, with no other property.
    pub fn new(name: &str) -> (r: FlagDef)
        ensures
            r.name@ == name@,
            r.short is None,
            r.long is None,
            r.aliases@.len() == 0,
            r.help@.len() == 0,
            !r.takes_value,
            r.default_value is None,
            r.env is None,
            !r.required,
            r.value_name is None,
            r.help_heading is None,
    {
        FlagDef {
            name: String::from_str(name),
            short: None,
            long: None,
            aliases: Vec::new(),
            help: String::new(),
            takes_value: false,
            default_value: None,
            env: None,
            required: false,
            value_name: None,
            help_heading: None,
        }
    }

    /// Sets the short form.
    pub fn short(self, c: char) -> (r: FlagDef)
        ensures
            r == (FlagDef { short: Some(c), ..self }),
    {
        FlagDef { short: Some(c), ..self }
    }

    /// Sets the long form.
    pub fn long(self, l: &str) -> (r: FlagDef)
        ensures
            r.long matches Some(x) && x@ == l@,
            r == (FlagDef { long: r.long, ..self }),
    {
        FlagDef { long: Some(String::from_str(l)), ..self }
    }

    /// Adds an alias long form.
    pub fn alias(self, a: &str) -> (r: FlagDef)
        ensures
            r.aliases@.len() == self.aliases@.len() + 1,
            r.aliases@.drop_last() == self.aliases@,
            r.aliases@.last()@ == a@,
            r == (FlagDef { aliases: r.aliases, ..self }),
    {
        let mut s = self;
        s.aliases.push(String::from_str(a));
        proof {
            assert(s.aliases@.drop_last() =~= self.aliases@);
        }
        s
    }

    /// Sets whether the flag carries a value.
    pub fn takes_value(self, v: bool) -> (r: FlagDef)
        ensures
            r == (FlagDef { takes_value: v, ..self }),
    {
        FlagDef { takes_value: v, ..self }
    }

    /// Sets the default value.
    pub fn default_value(self, d: &str) -> (r: FlagDef)
        ensures
            r.default_value matches Some(x) && x@ == d@,
            r == (FlagDef { default_value: r.default_value, ..self }),
    {
        FlagDef { default_value: Some(String::from_str(d)), ..self }
    }

    /// Sets the environment variable consulted for a value.
    pub fn env(self, var: &str) -> (r: FlagDef)
        ensures
            r.env matches Some(x) && x@ == var@,
            r == (FlagDef { env: r.env, ..self }),
    {
        FlagDef { env: Some(String::from_str(var)), ..self }
    }

    /// Sets whether the flag is required.
    pub fn required(self, req: bool) -> (r: FlagDef)
        ensures
            r == (FlagDef { required: req, ..self }),
    {
        FlagDef { required: req, ..self }
    }

    /// Sets the help text.
    pub fn help(self, h: &str) -> (r: FlagDef)
        ensures
            r.help@ == h@,
            r == (FlagDef { help: r.help, ..self }),
    {
        FlagDef { help: String::from_str(h), ..self }
    }

    /// Sets the display name of the value.
    pub fn value_name(self, v: &str) -> (r: FlagDef)
        ensures
            r.value_name matches Some(x) && x@ == v@,
            r == (FlagDef { value_name: r.value_name, ..self }),
    {
        FlagDef { value_name: Some(String::from_str(v)), ..self }
    }
}

/// Whether a simple flag is boolean or carries a value.
#[derive(Debug, Clone, Copy, PartialEq, Eq, Structural)]
pub enum FlagKind {
    Boolean,
    Value,
}

/// What a simple flag found in an argument list.
#[derive(Debug, Clone, PartialEq, Eq)]
pub enum FlagValue {
    Boolean(bool),
    Value(String),
}

/// The model of a [`FlagValue`].
pub enum FlagValueView {
    Boolean(bool),
    Value(Seq<char>),
}

impl FlagValue {
    pub open spec fn spec_view(&self) -> FlagValueView {
        match self {
            FlagValue::Boolean(b) => FlagValueView::Boolean(*b),
            FlagValue::Value(s) => FlagValueView::Value(s@),
        }
    }
}

impl DeepView for FlagValue {
    type V = FlagValueView;

    open spec fn deep_view(&self) -> FlagValueView {
        self.spec_view()
    }
}

/// A simple flag looked up directly in an argument list: `--name`, or
/// `-alias` for each alias.
#[derive(Clone, Debug)]
pub struct Flag {
    pub name: String,
    pub alias: Vec<String>,
    pub kind: FlagKind,
}

/// `t` is one of the spellings of `f`.
pub open spec fn spells(f: Flag, t: Seq<char>) -> bool {
    t == "--"@ + f.name@ || exists|j: int| 0 <= j < f.alias@.len() && t == "-"@ + #[trigger] f.alias@[j]@
}

/// First index at or after `i` of an argument spelling `f`.
pub open spec fn spelled_from(f: Flag, args: Seq<Seq<char>>, i: int) -> Option<int>
    decreases args.len() - i,
{
    if i < 0 || i >= args.len() {
        None
    } else if spells(f, args[i]) {
        Some(i)
    } else {
        spelled_from(f, args, i + 1)
    }
}

/// What `f` finds in `args`: a boolean flag is `true` when spelled; a value
/// flag takes the argument after it, unless that is missing or starts with
/// a dash.
pub open spec fn found_value(f: Flag, args: Seq<Seq<char>>) -> Option<FlagValueView> {
    match spelled_from(f, args, 0) {
        None => None,
        Some(i) => match f.kind {
            FlagKind::Boolean => Some(FlagValueView::Boolean(true)),
            FlagKind::Value => if i + 1 < args.len() && !(args[i + 1].len() > 0 && args[i + 1][0] == '-') {
                Some(FlagValueView::Value(args[i + 1]))
            } else {
                None
            },
        },
    }
}

impl Flag {
    /// A flag named `name` of the given kind, with no aliases.
    pub fn new(name: &str, kind: FlagKind) -> (r: Flag)
        ensures
            r.name@ == name@,
            r.alias@.len() == 0,
            r.kind == kind,
    {
        Flag { name: String::from_str(name), alias: Vec::new(), kind }
    }

    /// Adds an alias, spelled `-alias` in arguments.
    pub fn alias(self, alias: &str) -> (r: Flag)
        ensures
            r.name == self.name,
            r.kind == self.kind,
            r.alias@ == self.alias@.push(r.alias@.last()),
            r.alias@.last()@ == alias@,
    {
        let mut f = self;
        f.alias.push(String::from_str(alias));
        f
    }

    /// The flag's name.
    pub fn name(&self) -> (r: String)
        ensures
            r@ == self.name@,
    {
        self.name.clone()
    }

    /// The flag's kind.
    pub fn kind(&self) -> (r: FlagKind)
        ensures
            r == self.kind,
    {
        self.kind
    }

    /// Whether `t` spells this flag.
    fn is_spelled(&self, t: &String) -> (r: bool)
        ensures
            r == spells(*self, t@),
    {
        let long = String::from_str("--").concat(self.name.as_str());
        if str_eq(t.as_str(), long.as_str()) {
            return true;
        }
        let mut j: usize = 0;
        while j < self.alias.len()
            invariant
                j <= self.alias@.len(),
                t@ != "--"@ + self.name@,
                forall|x: int| 0 <= x < j ==> t@ != "-"@ + #[trigger] self.alias@[x]@,
            decreases self.alias@.len() - j,
        {
            let short = String::from_str("-").concat(self.alias[j].as_str());
            if str_eq(t.as_str(), short.as_str()) {
                return true;
            }
            j = j + 1;
        }
        false
    }

    /// The index of the first argument that spells this flag.
    pub fn option_index(&self, v: &Vec<String>) -> (r: Option<usize>)
        ensures
            r matches Some(i) ==> spelled_from(*self, v.deep_view(), 0) == Some(i as int) && i < v@.len(),
            r is None ==> spelled_from(*self, v.deep_view(), 0) is None,
    {
        let mut i: usize = 0;
        while i < v.len()
            invariant
                i <= v@.len(),
                spelled_from(*self, v.deep_view(), 0) == spelled_from(*self, v.deep_view(), i as int),
            decreases v@.len() - i,
        {
            if self.is_spelled(&v[i]) {
                return Some(i);
            }
            i = i + 1;
        }
        None
    }

    /// What this flag finds in `args` (see [`found_value`]).
    pub fn value(&self, args: &Vec<String>) -> (r: Option<FlagValue>)
        ensures
            match found_value(*self, args.deep_view()) {
                Some(v) => r matches Some(x) && x.spec_view() == v,
                None => r is None,
            },
    {
        match self.option_index(args) {
            None => None,
            Some(i) => match self.kind {
                FlagKind::Boolean => Some(FlagValue::Boolean(true)),
                FlagKind::Value => {
                    if i < args.len() - 1 {
                        let next = args[i + 1].as_str();
                        let dash = char_len(next) > 0 && next.get_char(0) == '-';
                        if !dash {
                            return Some(FlagValue::Value(args[i + 1].clone()));
                        }
                    }
                    None
                },
            },
        }
    }
}

} // verus!
