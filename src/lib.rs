//! Command-line argument parsing and dispatch: flag catalogs, a tokenizer
//! with value providers, a command tree with help and version
//! short-circuits, execution contexts with extractors, and a middleware
//! pipeline around handlers.

pub mod error;
pub mod text;
pub mod flag;
pub mod model;
pub mod distance;
pub mod provider;
pub mod validator;
pub mod parser;
pub mod context;
pub mod command;
pub mod dispatch;
pub mod middleware;
pub mod laws;
pub mod traits;
pub mod app;
pub mod extract;
pub mod handler;

pub use app::{Action, App, Invocation};
pub use command::CommandDef;
pub use context::{Context, FlagMap};
pub use dispatch::{dispatch, dispatch_validated, Dispatch};
pub use error::{ErrorKind, KoralError, KoralResult, KoralResultExt};
pub use extract::{Args, Extension, FlagVal, FromContext, State};
pub use flag::{Flag, FlagDef, FlagKind, FlagValue};
pub use handler::{call_handler, Handler, Legacy, LegacyDyn, LegacyTyped};
pub use middleware::{run_pipeline, Hooks, Middleware, Stage};
pub use parser::{validate_required_flags, Parser};
pub use validator::{AcceptAll, Validator};
pub use provider::{DefaultProvider, EnvProvider, ValueProvider};
