use koral::extract::FlagVal;
use koral::{
    validate_required_flags, Action, App, Context, FlagDef, FlagKind, FlagMap, FlagValue,
    FromContext, Invocation, KoralError, KoralResult,
};
use koral::Flag;

fn strings(v: &[&str]) -> Vec<String> {
    v.iter().map(|s| s.to_string()).collect()
}

struct ExpectFlagValue;

impl Action for ExpectFlagValue {
    fn call(&self, ctx: Context) -> KoralResult<()> {
        let flag = ctx.value_flag("flag").unwrap();
        assert_eq!(flag, "value");
        Ok(())
    }
}

struct Noop;

impl Action for Noop {
    fn call(&self, _ctx: Context) -> KoralResult<()> {
        Ok(())
    }
}

struct TestFlag;

impl koral::traits::Flag for TestFlag {
    type Value = String;

    fn declared_name() -> String {
        "test".to_string()
    }

    fn name() -> String {
        Self::declared_name()
    }

    fn short() -> Option<char> {
        None
    }

    fn takes_value() -> bool {
        true
    }

    fn converted(payload: &Option<String>) -> Option<String> {
        payload.clone()
    }

    fn parse_value(payload: &Option<String>) -> Option<String> {
        Self::converted(payload)
    }
}

#[test]
fn test_action() {
    let action = ExpectFlagValue;
    let ctx = Context::new(
        strings(&["test", "--flag", "value"]),
        vec![Flag::new("flag", FlagKind::Value)],
    );
    action.call(ctx).unwrap();
}

#[test]
fn test_app() {
    let app = App::new("test")
        .flag(Flag::new("flag", FlagKind::Value))
        .action(ExpectFlagValue);
    let args = strings(&["test", "--flag", "value"]);
    app.run(args).unwrap();
}

#[test]
fn test_app_help() {
    let app = App::new("test")
        .flag(Flag::new("flag", FlagKind::Value))
        .action(Noop);
    let args = strings(&["test", "--help"]);
    let out = app.run(args).unwrap();
    assert_eq!(out, Invocation::Help(vec![]));
}

#[test]
fn test_app_app() {
    let app = App::new("test").app(App::new("sub").action(Noop)).action(Noop);
    let args = strings(&["test", "sub"]);
    let out = app.run(args).unwrap();
    assert_eq!(out, Invocation::Action(vec![0]));
}

#[test]
fn test_context() {
    let args = strings(&["test", "--flag", "value", "--bool"]);
    let ctx = Context::new(
        args.clone(),
        vec![Flag::new("flag", FlagKind::Value), Flag::new("bool", FlagKind::Boolean)],
    );
    assert_eq!(ctx.value_flag("flag"), Some("value".to_string()));
    assert_eq!(ctx.bool_flag("bool"), true);
}

#[test]
fn test_option_extract_present() {
    let mut map = FlagMap::new();
    map.insert("test".to_string(), Some(FlagValue::Value("val".to_string())));
    let ctx = Context::from_parts(map, vec![]);
    let res = Option::<FlagVal<TestFlag>>::from_context(&ctx).unwrap();
    assert!(res.is_some());
    assert_eq!(res.unwrap().0, "val");
}

#[test]
fn test_option_extract_missing() {
    let map = FlagMap::new();
    let ctx = Context::from_parts(map, vec![]);
    let res = Option::<FlagVal<TestFlag>>::from_context(&ctx).unwrap();
    assert!(res.is_none());
}

#[test]
fn test_flag() {
    let flag = Flag::new("flag", FlagKind::Value);
    assert_eq!(flag.clone().name(), "flag");
    assert_eq!(flag.clone().kind(), FlagKind::Value);
}

#[test]
fn test_flag_value() {
    let flag = Flag::new("flag", FlagKind::Value);
    let args = strings(&["test", "--flag", "value"]);
    assert_eq!(flag.value(&args), Some(FlagValue::Value("value".to_string())));
}

#[test]
fn test_flag_boolean() {
    let flag = Flag::new("flag", FlagKind::Boolean);
    let args = strings(&["test", "--flag"]);
    assert_eq!(flag.value(&args), Some(FlagValue::Boolean(true)));
}

#[test]
fn test_validate_required_flags() {
    let req_flag = FlagDef::new("req").required(true).takes_value(true);
    let opt_flag = FlagDef::new("opt").takes_value(true);
    let flags = vec![req_flag, opt_flag];

    let mut map = FlagMap::new();
    map.insert("req".to_string(), Some(FlagValue::Value("val".to_string())));
    assert!(validate_required_flags(&flags, &map).is_ok());

    let mut map2 = FlagMap::new();
    map2.insert("opt".to_string(), Some(FlagValue::Value("val".to_string())));
    let err = validate_required_flags(&flags, &map2);
    assert!(matches!(err, Err(KoralError::MissingArgument(_))));

    let mut map3 = FlagMap::new();
    map3.insert("req".to_string(), Some(FlagValue::Value("val".to_string())));
    assert!(validate_required_flags(&flags, &map3).is_ok());
}

#[test]
fn declared_flag_without_value_keeps_its_key() {
    let ctx = Context::new(
        strings(&["test", "--flag", "value"]),
        vec![Flag::new("flag", FlagKind::Value), Flag::new("bool", FlagKind::Boolean)],
    );
    assert!(ctx.flags.contains_key("bool"));
    assert_eq!(ctx.flags.get("bool"), Some(&None));
    assert!(!ctx.bool_flag("bool"));
    assert!(!ctx.flags.contains_key("other"));
}

#[test]
fn flag_alias_is_spelled_with_one_dash() {
    let flag = Flag::new("list", FlagKind::Boolean).alias("l");
    let args = strings(&["prog", "-l"]);
    assert_eq!(flag.option_index(&args), Some(1));
    assert_eq!(flag.value(&args), Some(FlagValue::Boolean(true)));
}

#[test]
fn value_flag_ignores_a_following_dash_token() {
    let flag = Flag::new("name", FlagKind::Value);
    let args = strings(&["prog", "--name", "-x"]);
    assert_eq!(flag.value(&args), None);
}

struct Fails;

impl Action for Fails {
    fn call(&self, _ctx: Context) -> KoralResult<()> {
        Err(KoralError::Other("boom".to_string()))
    }
}

#[test]
fn app_action_error_is_returned() {
    let app = App::new("test").action(Fails);
    let err = app.run(strings(&["test"])).unwrap_err();
    assert_eq!(err.to_string(), "boom");
}
