use vstd::prelude::*;
use crate::app::Invocation;
use crate::error::KoralResult;
use crate::flag;

verus! {

/// A runnable command-line application.
pub trait App {
    /// The application's name.
    fn name(&self) -> String;

    /// The flags the application looks for.
    fn flags(&self) -> Vec<flag::Flag>;

    /// Runs the application on `args` (program name first).
    fn run(&self, args: Vec<String>) -> KoralResult<Invocation>;
}

/// A flag declared by a type, with a typed value.
pub trait Flag {
    /// The type of the flag's value.
    type Value;

    /// The flag's declared name.
    spec fn declared_name() -> String;

    /// The flag's name.
    fn name() -> (r: String)
        ensures
            r == Self::declared_name(),
    ;

    /// The flag's short form, if any.
    fn short() -> Option<char>;

    /// Whether the flag carries a value.
    fn takes_value() -> bool;

    /// What a stored payload converts to.
    spec fn converted(payload: &Option<String>) -> Option<Self::Value>;

    /// The typed value of a stored payload (`None` for a boolean flag that
    /// is set), or `None` if it does not convert.
    fn parse_value(payload: &Option<String>) -> (r: Option<Self::Value>)
        ensures
            r == Self::converted(payload),
    ;
}

/// A type that shared application state can be restored as.
pub trait SharedState: Sized {
    /// Identifier of the type, as stored in a context.
    spec fn declared_type_id() -> String;

    /// Identifier of the type, as stored in a context.
    fn type_id() -> (r: String)
        ensures
            r == Self::declared_type_id(),
    ;

    /// What the stored text restores to.
    spec fn restored(stored: &String) -> Option<Self>;

    /// The value held by the stored text, if it reads as one.
    fn restore(stored: &String) -> (r: Option<Self>)
        ensures
            r == Self::restored(stored),
    ;
}

/// A type that middleware hands to handlers through a context's extensions.
pub trait ExtensionValue: Sized {
    /// The extension key of the type.
    spec fn declared_key() -> String;

    /// The extension key of the type.
    fn key() -> (r: String)
        ensures
            r == Self::declared_key(),
    ;

    /// What the stored text restores to.
    spec fn restored(stored: &String) -> Option<Self>;

    /// The value held by the stored text, if it reads as one.
    fn restore(stored: &String) -> (r: Option<Self>)
        ensures
            r == Self::restored(stored),
    ;
}

} // verus!
