use koral::extract::{Args, Extension, FlagVal, FromContext, State};
use koral::handler::{invoke_injected, ContextHandler, InjectedHandler};
use koral::traits::{ExtensionValue, SharedState};
use koral::{call_handler, Context, ErrorKind, FlagMap, FlagValue, KoralError, KoralResult, KoralResultExt, LegacyDyn};

struct Verbose;

impl koral::traits::Flag for Verbose {
    type Value = bool;

    fn declared_name() -> String {
        "verbose".to_string()
    }

    fn name() -> String {
        Self::declared_name()
    }

    fn short() -> Option<char> {
        Some('v')
    }

    fn takes_value() -> bool {
        false
    }

    fn converted(payload: &Option<String>) -> Option<bool> {
        match payload {
            None => Some(true),
            Some(s) => s.parse().ok(),
        }
    }

    fn parse_value(payload: &Option<String>) -> Option<bool> {
        Self::converted(payload)
    }
}

#[derive(Debug, PartialEq)]
struct Db(String);

impl SharedState for Db {
    fn declared_type_id() -> String {
        "db".to_string()
    }

    fn type_id() -> String {
        Self::declared_type_id()
    }

    fn restored(stored: &String) -> Option<Db> {
        Some(Db(stored.clone()))
    }

    fn restore(stored: &String) -> Option<Db> {
        Self::restored(stored)
    }
}

#[derive(Debug, PartialEq)]
struct Config(String);

impl ExtensionValue for Config {
    fn declared_key() -> String {
        "config".to_string()
    }

    fn key() -> String {
        Self::declared_key()
    }

    fn restored(stored: &String) -> Option<Config> {
        Some(Config(stored.clone()))
    }

    fn restore(stored: &String) -> Option<Config> {
        Self::restored(stored)
    }
}

fn context() -> Context {
    let mut map = FlagMap::new();
    map.insert("verbose".to_string(), Some(FlagValue::Boolean(true)));
    Context::from_parts(map, vec!["extra_arg".to_string()])
}

#[test]
fn test_di_handler() {
    let ctx = context().with_state("db", "postgres://localhost".to_string());
    let state = State::<Db>::from_context(&ctx).ok().unwrap();
    assert_eq!(state.0, Db("postgres://localhost".to_string()));
    let verbose = FlagVal::<Verbose>::from_context(&ctx).ok().unwrap();
    assert!(verbose.0);
    let args = Args::from_context(&ctx).ok().unwrap();
    assert_eq!(args.0, vec!["extra_arg"]);
}

#[test]
fn state_absent_or_of_other_type_is_missing_argument() {
    let ctx = context().with_state("cache", "x".to_string());
    let err = State::<Db>::from_context(&ctx).err().unwrap();
    assert_eq!(err.kind(), ErrorKind::MissingArgument);
    let err = State::<Db>::from_context(&context()).err().unwrap();
    assert_eq!(err.kind(), ErrorKind::MissingArgument);
}

#[test]
fn test_inject_middleware() {
    let mut ctx = context();
    ctx.insert_extension("config".to_string(), "secret-123".to_string());
    let ext = Extension::<Config>::from_context(&ctx).ok().unwrap();
    assert_eq!(format!("ConfigMW({})", ext.0 .0), "ConfigMW(secret-123)");
}

#[test]
fn missing_extension_is_missing_argument_and_optional_is_empty() {
    let ctx = context();
    let err = Extension::<Config>::from_context(&ctx).err().unwrap();
    assert_eq!(err.kind(), ErrorKind::MissingArgument);
    assert!(Option::<Extension<Config>>::from_context(&ctx).ok().unwrap().is_none());
}

#[test]
fn optional_state_is_empty_when_absent() {
    let ctx = context();
    assert!(Option::<State<Db>>::from_context(&ctx).ok().unwrap().is_none());
    let ctx = context().with_state("db", "x".to_string());
    assert_eq!(Option::<State<Db>>::from_context(&ctx).ok().unwrap().unwrap().0, Db("x".to_string()));
}

struct Greeter;

impl InjectedHandler for Greeter {
    type Args = (Args, FlagVal<Verbose>);

    fn handle(&self, args: Self::Args) -> KoralResult<()> {
        assert_eq!(args.0 .0, vec!["extra_arg"]);
        assert!(args.1 .0);
        Ok(())
    }
}

struct NeedsConfig;

impl InjectedHandler for NeedsConfig {
    type Args = Extension<Config>;

    fn handle(&self, _args: Self::Args) -> KoralResult<()> {
        panic!("must not run without its extension");
    }
}

#[test]
fn injected_handler_gets_extracted_arguments() {
    assert!(invoke_injected(&Greeter, &context()).is_ok());
    let err = invoke_injected(&NeedsConfig, &context()).unwrap_err();
    assert_eq!(err.kind(), ErrorKind::MissingArgument);
}

struct Plain;

impl ContextHandler for Plain {
    fn handle(&self, ctx: Context) -> KoralResult<()> {
        if ctx.bool_flag("verbose") {
            Ok(())
        } else {
            Err(KoralError::Validation("quiet".to_string()))
        }
    }
}

#[test]
fn flag_payload_is_exact() {
    let mut map = FlagMap::new();
    map.insert("on".to_string(), Some(FlagValue::Boolean(true)));
    map.insert("off".to_string(), Some(FlagValue::Boolean(false)));
    map.insert("name".to_string(), Some(FlagValue::Value("Ann".to_string())));
    map.insert("declared".to_string(), None);
    let ctx = Context::from_parts(map, vec![]);
    assert_eq!(ctx.flag_payload("on").ok().unwrap(), None);
    assert_eq!(ctx.flag_payload("name").ok().unwrap(), Some("Ann".to_string()));
    for n in ["off", "declared", "absent"] {
        let err = ctx.flag_payload(n).err().unwrap();
        assert_eq!(err.kind(), ErrorKind::MissingArgument);
        assert_eq!(err.message(), &format!("Flag '{}' not found", n));
    }
    let err = ctx.extension_text("config").err().unwrap();
    assert_eq!(err.message(), "Extension 'config' not found");
}

#[test]
fn test_legacy_handler() {
    let mut app = 1u32;
    assert!(call_handler(&LegacyDyn(Plain), &mut app, context()).is_ok());
}

#[test]
fn test_extension_trait() {
    let r: Result<(), String> = Err("Something went wrong".to_string());
    match r.koral_err() {
        Err(KoralError::Other(msg)) => assert_eq!(msg, "Something went wrong"),
        _ => panic!("Expected KoralError::Other from extension trait"),
    }
}
