use vstd::prelude::*;
use crate::flag::FlagDef;

verus! {

/// A check of a flag's value payload, supplied by the application.
pub trait Validator {
    /// The check's answer for `value` of `flag`: accepted, or the reason it
    /// is rejected.
    spec fn verdict(&self, flag: &FlagDef, value: &String) -> Result<(), String>;

    /// Accepts `value` for `flag`, or says why not.
    fn validate(&self, flag: &FlagDef, value: &String) -> (r: Result<(), String>)
        ensures
            r == self.verdict(flag, value),
    ;
}

/// The validator that accepts every value.
#[derive(Debug, Clone, Copy)]
pub struct AcceptAll;

impl Validator for AcceptAll {
    open spec fn verdict(&self, flag: &FlagDef, value: &String) -> Result<(), String> {
        Ok(())
    }

    fn validate(&self, flag: &FlagDef, value: &String) -> (r: Result<(), String>) {
        Ok(())
    }
}

} // verus!
