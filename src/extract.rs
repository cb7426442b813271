//! Extractors: values derived from a context for handlers, or a failure.
use vstd::prelude::*;
use crate::context::Context;
use crate::flag::FlagValueView;
use crate::error::{ErrorKind, KoralError, KoralResult};
use crate::text::copy_strings;
use crate::traits::{ExtensionValue, Flag, SharedState};

verus! {

/// Something that can be extracted from a context, or fails.
pub trait FromContext: Sized {
    /// `r` is an outcome that extracting from `ctx` may have.
    spec fn extracts(ctx: Context, r: KoralResult<Self>) -> bool;

    /// Extracts from `ctx`; never changes it.
    fn from_context(ctx: &Context) -> (r: KoralResult<Self>)
        ensures
            Self::extracts(*ctx, r),
    ;
}

/// The positional arguments.
pub struct Args(pub Vec<String>);

impl FromContext for Args {
    open spec fn extracts(ctx: Context, r: KoralResult<Self>) -> bool {
        r matches Ok(a) && a.0.deep_view() == ctx.args.deep_view()
    }

    fn from_context(ctx: &Context) -> (r: KoralResult<Self>) {
        Ok(Args(copy_strings(&ctx.args)))
    }
}

/// The typed value of flag `F`.
pub struct FlagVal<F: Flag>(pub F::Value);

impl<F: Flag> FromContext for FlagVal<F> {
    /// The flag's stored payload (its text, or none for a boolean that is
    /// on) goes to the flag's conversion; a flag that is absent, off or
    /// without a value, or a payload that does not convert, is a
    /// `MissingArgument`.
    open spec fn extracts(ctx: Context, r: KoralResult<Self>) -> bool {
        match ctx.flags.spec_get(F::declared_name()@) {
            Some(Some(FlagValueView::Value(t))) => exists|p: String|
                p@ == t && #[trigger] converted_as::<F>(F::converted(&Some(p)), r),
            Some(Some(FlagValueView::Boolean(true))) => converted_as::<F>(F::converted(&None), r),
            _ => r matches Err(e) && e.spec_kind() == ErrorKind::MissingArgument,
        }
    }

    fn from_context(ctx: &Context) -> (r: KoralResult<Self>) {
        let name = F::name();
        match ctx.flag_payload(name.as_str()) {
            Ok(payload) => {
                let r = match F::parse_value(&payload) {
                    Some(v) => Ok(FlagVal(v)),
                    None => Err(KoralError::MissingArgument(missing_flag_message(&name))),
                };
                proof {
                    assert(converted_as::<F>(F::converted(&payload), r));
                    if let Some(x) = payload {
                        assert(converted_as::<F>(F::converted(&Some(x)), r));
                    }
                }
                r
            },
            Err(e) => Err(e),
        }
    }
}

/// `r` is the extraction of the conversion result `v`.
pub open spec fn converted_as<F: Flag>(v: Option<F::Value>, r: KoralResult<FlagVal<F>>) -> bool {
    match v {
        Some(x) => r matches Ok(y) && y.0 == x,
        None => r matches Err(e) && e.spec_kind() == ErrorKind::MissingArgument,
    }
}

fn missing_flag_message(name: &String) -> (r: String)
    ensures
        r@ == "Flag '"@ + name@ + "' not found"@,
{
    crate::text::concat3("Flag '", name.as_str(), "' not found")
}

/// A copy of the shared application state, of type `T`.
pub struct State<T>(pub T);

impl<T: SharedState> FromContext for State<T> {
    /// State of the type's identifier restores through the type; no state,
    /// state of another type, or text that does not restore is a
    /// `MissingArgument`.
    open spec fn extracts(ctx: Context, r: KoralResult<Self>) -> bool {
        match ctx.state {
            Some(s) => if s.0@ == T::declared_type_id()@ {
                exists|p: String|
                    p@ == s.1@ && #[trigger] T::restored(&p) == match r {
                        Ok(y) => Some(y.0),
                        Err(_) => None::<T>,
                    } && (r matches Err(e) ==> e.spec_kind() == ErrorKind::MissingArgument)
            } else {
                r matches Err(e) && e.spec_kind() == ErrorKind::MissingArgument
            },
            None => r matches Err(e) && e.spec_kind() == ErrorKind::MissingArgument,
        }
    }

    fn from_context(ctx: &Context) -> (r: KoralResult<Self>) {
        let id = T::type_id();
        match ctx.state(id.as_str()) {
            Some(stored) => match T::restore(&stored) {
                Some(v) => Ok(State(v)),
                None => Err(KoralError::MissingArgument(String::from_str("Shared state not found or type mismatch"))),
            },
            None => Err(KoralError::MissingArgument(String::from_str("Shared state not found or type mismatch"))),
        }
    }
}

/// A value that middleware inserted into the context's extensions.
pub struct Extension<T>(pub T);

impl<T: ExtensionValue> FromContext for Extension<T> {
    /// The text stored under the type's key restores through the type; no
    /// such text, or text that does not restore, is a `MissingArgument`.
    open spec fn extracts(ctx: Context, r: KoralResult<Self>) -> bool {
        match ctx.extensions.spec_get(T::declared_key()@) {
            Some(Some(FlagValueView::Value(t))) => exists|p: String|
                p@ == t && #[trigger] T::restored(&p) == match r {
                    Ok(y) => Some(y.0),
                    Err(_) => None::<T>,
                } && (r matches Err(e) ==> e.spec_kind() == ErrorKind::MissingArgument),
            _ => r matches Err(e) && e.spec_kind() == ErrorKind::MissingArgument,
        }
    }

    fn from_context(ctx: &Context) -> (r: KoralResult<Self>) {
        let key = T::key();
        match ctx.extension_text(key.as_str()) {
            Ok(stored) => match T::restore(&stored) {
                Some(v) => Ok(Extension(v)),
                None => Err(KoralError::MissingArgument(crate::text::concat3("Extension '", key.as_str(), "' not found"))),
            },
            Err(e) => Err(e),
        }
    }
}

impl<T: FromContext> FromContext for Option<T> {
    /// A `MissingArgument` failure of `T` becomes an empty result; any other
    /// outcome of `T` passes through.
    open spec fn extracts(ctx: Context, r: KoralResult<Self>) -> bool {
        match r {
            Ok(Some(v)) => T::extracts(ctx, Ok(v)),
            Ok(None) => exists|e: KoralError|
                e.spec_kind() == ErrorKind::MissingArgument && #[trigger] T::extracts(ctx, Err(e)),
            Err(e) => e.spec_kind() != ErrorKind::MissingArgument && T::extracts(ctx, Err(e)),
        }
    }

    fn from_context(ctx: &Context) -> (r: KoralResult<Self>) {
        let inner = T::from_context(ctx);
        match inner {
            Ok(v) => Ok(Some(v)),
            Err(e) => {
                if e.kind() == ErrorKind::MissingArgument {
                    Ok(None)
                } else {
                    Err(e)
                }
            },
        }
    }
}

impl<T1: FromContext, T2: FromContext> FromContext for (T1, T2) {
    /// Both extract, in order; the first failure is the outcome.
    open spec fn extracts(ctx: Context, r: KoralResult<Self>) -> bool {
        match r {
            Ok((a, b)) => T1::extracts(ctx, Ok(a)) && T2::extracts(ctx, Ok(b)),
            Err(e) => T1::extracts(ctx, Err(e)) || exists|a: T1|
                #[trigger] T1::extracts(ctx, Ok(a)) && T2::extracts(ctx, Err(e)),
        }
    }

    fn from_context(ctx: &Context) -> (r: KoralResult<Self>) {
        let a = match T1::from_context(ctx) {
            Ok(a) => a,
            Err(e) => {
                return Err(e);
            },
        };
        match T2::from_context(ctx) {
            Ok(b) => Ok((a, b)),
            Err(e) => Err(e),
        }
    }
}

} // verus!
