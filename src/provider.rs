use vstd::prelude::*;
use crate::flag::FlagDef;
use crate::model::{env_lookup, env_lookup_from};

verus! {

/// A source of values for flags that the tokens left absent.
pub trait ValueProvider {
    /// The value this provider offers for `flag`.
    spec fn spec_value(&self, flag: FlagDef) -> Option<Seq<char>>;

    /// Tries to get a value for `flag`.
    fn get_value(&self, flag: &FlagDef) -> (r: Option<String>)
        ensures
            r.deep_view() == self.spec_value(*flag),
    ;
}

/// Provides values from a snapshot of the environment: name and value pairs,
/// the first pair of a name winning.
#[derive(Debug, Clone)]
pub struct EnvProvider {
    pub vars: Vec<(String, String)>,
}

impl EnvProvider {
    pub open spec fn spec_vars(&self) -> Seq<(Seq<char>, Seq<char>)> {
        self.vars.deep_view()
    }

    /// A provider over the given snapshot.
    pub fn new(vars: Vec<(String, String)>) -> (r: EnvProvider)
        ensures
            r.vars == vars,
    {
        EnvProvider { vars }
    }

    /// A provider over an empty environment.
    pub fn empty() -> (r: EnvProvider)
        ensures
            r.spec_vars().len() == 0,
    {
        EnvProvider { vars: Vec::new() }
    }

    /// The value of variable `name` in the snapshot.
    pub fn lookup(&self, name: &String) -> (r: Option<String>)
        ensures
            r.deep_view() == env_lookup(self.spec_vars(), name@),
    {
        let mut i: usize = 0;
        while i < self.vars.len()
            invariant
                i <= self.vars@.len(),
                env_lookup(self.spec_vars(), name@) == env_lookup_from(
                    self.spec_vars(),
                    name@,
                    i as int,
                ),
            decreases self.vars@.len() - i,
        {
            if self.vars[i].0 == *name {
                return Some(self.vars[i].1.clone());
            }
            i = i + 1;
        }
        None
    }
}

impl ValueProvider for EnvProvider {
    open spec fn spec_value(&self, flag: FlagDef) -> Option<Seq<char>> {
        match flag.env {
            Some(var) => env_lookup(self.spec_vars(), var@),
            None => None,
        }
    }

    fn get_value(&self, flag: &FlagDef) -> (r: Option<String>) {
        match &flag.env {
            Some(var) => self.lookup(var),
            None => None,
        }
    }
}

/// Provides the default values declared in flags.
#[derive(Debug, Clone, Copy)]
pub struct DefaultProvider;

impl ValueProvider for DefaultProvider {
    open spec fn spec_value(&self, flag: FlagDef) -> Option<Seq<char>> {
        match flag.default_value {
            Some(d) => Some(d@),
            None => None,
        }
    }

    fn get_value(&self, flag: &FlagDef) -> (r: Option<String>) {
        match &flag.default_value {
            Some(d) => Some(d.clone()),
            None => None,
        }
    }
}

} // verus!
