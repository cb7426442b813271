//! Handler calling conventions, each adapted to the single canonical one.
use vstd::prelude::*;
use crate::context::Context;
use crate::error::{KoralError, KoralResult};
use crate::extract::FromContext;

verus! {

/// The canonical handler: the application object and the context in, a
/// result out.
pub trait Handler<A> {
    /// Executes the handler.
    fn call(&self, app: &mut A, ctx: Context) -> KoralResult<()>;
}

/// A handler that receives the application object and the context.
pub trait AppHandler<A> {
    fn handle(&self, app: &mut A, ctx: Context) -> KoralResult<()>;
}

/// A handler that receives the context first, then the application object.
pub trait TypedHandler<A> {
    fn handle(&self, ctx: Context, app: &mut A) -> KoralResult<()>;
}

/// A handler that receives only the context.
pub trait ContextHandler {
    fn handle(&self, ctx: Context) -> KoralResult<()>;
}

/// A handler whose parameters are extracted from the context.
pub trait InjectedHandler {
    /// The parameters, extracted together (a tuple for several).
    type Args: FromContext;

    fn handle(&self, args: Self::Args) -> KoralResult<()>;
}

/// Adapts an [`AppHandler`].
pub struct Legacy<H>(pub H);

/// Adapts a [`TypedHandler`].
pub struct LegacyTyped<H>(pub H);

/// Adapts a [`ContextHandler`].
pub struct LegacyDyn<H>(pub H);

/// Adapts an [`InjectedHandler`]: the parameters are extracted first, and a
/// failed extraction is the outcome without the handler running.
pub struct Injected<H>(pub H);

impl<A, H: AppHandler<A>> Handler<A> for Legacy<H> {
    fn call(&self, app: &mut A, ctx: Context) -> KoralResult<()> {
        self.0.handle(app, ctx)
    }
}

impl<A, H: TypedHandler<A>> Handler<A> for LegacyTyped<H> {
    fn call(&self, app: &mut A, ctx: Context) -> KoralResult<()> {
        self.0.handle(ctx, app)
    }
}

impl<A, H: ContextHandler> Handler<A> for LegacyDyn<H> {
    fn call(&self, app: &mut A, ctx: Context) -> KoralResult<()> {
        self.0.handle(ctx)
    }
}

impl<A, H: InjectedHandler> Handler<A> for Injected<H> {
    fn call(&self, app: &mut A, ctx: Context) -> KoralResult<()> {
        invoke_injected(&self.0, &ctx)
    }
}

/// Extracts the handler's parameters from `ctx`, then runs it; a failed
/// extraction is the result, and the handler is not called.
pub fn invoke_injected<H: InjectedHandler>(handler: &H, ctx: &Context) -> (r: KoralResult<()>)
    ensures
        exists|x: KoralResult<H::Args>|
            #[trigger] H::Args::extracts(*ctx, x) && (x matches Err(e) ==> r == Err::<(), KoralError>(e)),
{
    let extracted = H::Args::from_context(ctx);
    let ghost x = extracted;
    let r = match extracted {
        Ok(args) => handler.handle(args),
        Err(e) => Err(e),
    };
    assert(H::Args::extracts(*ctx, x) && (x matches Err(e) ==> r == Err::<(), KoralError>(e)));
    r
}

/// Invokes `handler` with the application object and the context.
pub fn call_handler<A, H: Handler<A>>(handler: &H, app: &mut A, ctx: Context) -> KoralResult<()> {
    handler.call(app, ctx)
}

} // verus!
