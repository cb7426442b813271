use koral::{
    dispatch, dispatch_validated, Validator, run_pipeline, CommandDef, Context, Dispatch, EnvProvider, ErrorKind, FlagDef,
    Hooks, KoralError, KoralResult, Stage,
};

fn strings(v: &[&str]) -> Vec<String> {
    v.iter().map(|s| s.to_string()).collect()
}

fn run(root: &CommandDef, args: &[&str]) -> KoralResult<Dispatch> {
    dispatch(root, &strings(args), false, &EnvProvider::empty())
}

fn run_strict(root: &CommandDef, args: &[&str]) -> KoralResult<Dispatch> {
    dispatch(root, &strings(args), true, &EnvProvider::empty())
}

fn ran_at(d: KoralResult<Dispatch>) -> Vec<usize> {
    match d {
        Ok(Dispatch::Run(path, _)) => path,
        Ok(Dispatch::Help(_)) => panic!("help selected"),
        Ok(Dispatch::Version(_)) => panic!("version selected"),
        Err(e) => panic!("failed: {:?}", e),
    }
}

fn parent_with_child() -> CommandDef {
    CommandDef::new("parent", "")
        .with_flags(vec![FlagDef::new("user").takes_value(true).required(true)])
        .with_subcommands(vec![CommandDef::new("child", "")])
}

#[test]
fn test_parent_required_missing_fails() {
    let app = parent_with_child();
    let res = run(&app, &["parent"]);
    assert!(res.is_err());
    let err = res.err().unwrap();
    assert_eq!(err.kind(), ErrorKind::MissingArgument);
    assert!(err.to_string().contains("user"));
}

#[test]
fn test_child_runs_without_parent_flag() {
    let app = parent_with_child();
    let res = run(&app, &["parent", "child"]);
    assert!(res.is_ok(), "Child should run without parent required flag: {:?}", res.as_ref().err());
    assert_eq!(ran_at(res), vec![0]);
}

#[test]
fn test_parent_runs_with_flag() {
    let app = parent_with_child();
    let res = run(&app, &["parent", "--user", "Alice"]);
    assert!(res.is_ok());
    match res {
        Ok(Dispatch::Run(path, ctx)) => {
            assert!(path.is_empty());
            assert_eq!(ctx.value_flag("user"), Some("Alice".to_string()));
        }
        _ => panic!("parent should run"),
    }
}

fn three_levels() -> CommandDef {
    CommandDef::new("root", "").with_subcommands(vec![CommandDef::new("level1", "")
        .with_subcommands(vec![CommandDef::new("level2", "")])])
}

#[test]
fn test_root_only() {
    assert_eq!(ran_at(run(&three_levels(), &["root"])), Vec::<usize>::new());
}

#[test]
fn test_nested_level1() {
    assert_eq!(ran_at(run(&three_levels(), &["root", "level1"])), vec![0]);
}

#[test]
fn test_nested_level2() {
    assert_eq!(ran_at(run(&three_levels(), &["root", "level1", "level2"])), vec![0, 0]);
}

fn with_aliases() -> CommandDef {
    CommandDef::new("alias_test", "").with_subcommands(vec![
        CommandDef::new("add", "").with_aliases(strings(&["a", "new"])),
        CommandDef::new("remove", "").with_aliases(strings(&["rm", "delete"])),
    ])
}

#[test]
fn test_subcommand_alias() {
    let app = with_aliases();
    assert_eq!(ran_at(run(&app, &["prog", "add"])), vec![0]);
    assert_eq!(ran_at(run(&app, &["prog", "a"])), vec![0]);
    assert_eq!(ran_at(run(&app, &["prog", "new"])), vec![0]);
    assert_eq!(ran_at(run(&app, &["prog", "rm"])), vec![1]);
}

#[test]
fn test_auto_dispatch_add() {
    let app = CommandDef::new("prog", "")
        .with_subcommands(vec![CommandDef::new("add", ""), CommandDef::new("show", "")
            .with_flags(vec![FlagDef::new("verbose").short('v')])]);
    match run(&app, &["prog", "add", "item1"]) {
        Ok(Dispatch::Run(path, ctx)) => {
            assert_eq!(path, vec![0]);
            assert_eq!(ctx.args, vec!["item1"]);
        }
        _ => panic!("Add should run"),
    }
}

#[test]
fn test_auto_dispatch_show() {
    let app = CommandDef::new("prog", "")
        .with_subcommands(vec![CommandDef::new("add", ""), CommandDef::new("show", "")
            .with_flags(vec![FlagDef::new("verbose").short('v')])]);
    match run(&app, &["prog", "show", "--verbose"]) {
        Ok(Dispatch::Run(path, ctx)) => {
            assert_eq!(path, vec![1]);
            assert!(ctx.bool_flag("verbose"));
        }
        _ => panic!("Show should run"),
    }
}

#[test]
fn test_version_flag_parsed() {
    let app = CommandDef::new("test-app", "").with_version("1.2.3");
    let res = run(&app, &["prog", "--version"]).unwrap();
    assert!(matches!(res, Dispatch::Version(ref p) if p.is_empty()));
}

#[test]
fn test_h_flag_override() {
    let app = CommandDef::new("test", "")
        .with_flags(vec![FlagDef::new("header").short('h').takes_value(true)]);
    match run(&app, &["test", "-h", "foo"]) {
        Ok(Dispatch::Run(_, ctx)) => {
            assert_eq!(ctx.value_flag("header"), Some("foo".to_string()));
        }
        _ => panic!("-h should be treated as header flag, not help"),
    }
}

#[test]
fn help_at_root_and_at_child() {
    let app = parent_with_child();
    assert!(matches!(run(&app, &["parent", "--help"]), Ok(Dispatch::Help(ref p)) if p.is_empty()));
    assert!(matches!(run(&app, &["parent", "-h"]), Ok(Dispatch::Help(ref p)) if p.is_empty()));
    assert!(matches!(run(&app, &["parent", "child", "--help"]), Ok(Dispatch::Help(ref p)) if *p == vec![0]));
}

#[test]
fn help_skips_required_check() {
    let app = parent_with_child();
    assert!(matches!(run_strict(&app, &["parent", "--help"]), Ok(Dispatch::Help(_))));
}

#[test]
fn strict_applies_at_selected_node_only() {
    let app = CommandDef::new("root", "").with_subcommands(vec![CommandDef::new("sub", "")
        .with_flags(vec![FlagDef::new("deep")])]);
    assert_eq!(ran_at(run_strict(&app, &["root", "sub", "--deep"])), vec![0]);
    let err = run_strict(&app, &["root", "--deep"]).err().unwrap();
    assert_eq!(err.kind(), ErrorKind::UnknownFlag);
}

#[test]
fn delimiter_through_dispatch() {
    let app = CommandDef::new("prog", "").with_flags(vec![FlagDef::new("flag").short('f').takes_value(true)]);
    match run(&app, &["prog", "--", "-f", "value"]) {
        Ok(Dispatch::Run(_, ctx)) => {
            assert_eq!(ctx.args, vec!["-f", "value"]);
            assert!(!ctx.flags.contains_key("flag"));
        }
        _ => panic!("should run"),
    }
}

struct NoFoo;

impl Validator for NoFoo {
    fn validate(&self, flag: &FlagDef, value: &String) -> Result<(), String> {
        self.verdict(flag, value)
    }

    fn verdict(&self, _flag: &FlagDef, value: &String) -> Result<(), String> {
        if value == "foo" {
            Err("foo is not allowed".to_string())
        } else {
            Ok(())
        }
    }
}

#[test]
fn dispatch_runs_validators_at_the_selected_node() {
    let app = CommandDef::new("root", "").with_subcommands(vec![CommandDef::new("sub", "")
        .with_flags(vec![FlagDef::new("name").takes_value(true)])]);
    let args = strings(&["root", "sub", "--name", "foo"]);
    let err = dispatch_validated(&app, &args, false, &EnvProvider::empty(), &NoFoo).err().unwrap();
    assert_eq!(err.kind(), ErrorKind::Validation);
    assert_eq!(err.message(), "Invalid value for flag 'name': foo is not allowed");
    let ok = strings(&["root", "sub", "--name", "bar"]);
    assert!(dispatch_validated(&app, &ok, false, &EnvProvider::empty(), &NoFoo).is_ok());
}

struct Recorder {
    stages: Vec<Stage>,
    names: Vec<&'static str>,
    events: Vec<String>,
    fail_before: Option<usize>,
    fail_handler: bool,
}

impl Hooks for Recorder {
    fn calls(&self) -> Vec<Stage> {
        self.stages.clone()
    }

    fn before(&mut self, i: usize, _ctx: &mut Context) -> KoralResult<()> {
        self.stages.push(Stage::Before(i));
        self.events.push(format!("{}_before", self.names[i]));
        if self.fail_before == Some(i) {
            return Err(KoralError::Other("stop".to_string()));
        }
        Ok(())
    }

    fn handle(&mut self, _ctx: &mut Context) -> KoralResult<()> {
        self.stages.push(Stage::Handler);
        self.events.push("run".to_string());
        if self.fail_handler {
            return Err(KoralError::Other("handler".to_string()));
        }
        Ok(())
    }

    fn after(&mut self, i: usize, _ctx: &mut Context) -> KoralResult<()> {
        self.stages.push(Stage::After(i));
        self.events.push(format!("{}_after", self.names[i]));
        Ok(())
    }
}

fn empty_context() -> Context {
    Context::from_parts(koral::FlagMap::new(), vec![])
}

#[test]
fn test_multiple_middleware_order() {
    let mut hooks = Recorder { stages: vec![], names: vec!["mw1", "mw2"], events: vec![], fail_before: None, fail_handler: false };
    let mut ctx = empty_context();
    let (res, stages) = run_pipeline(&mut hooks, 2, &mut ctx);
    assert!(res.is_ok());
    assert_eq!(hooks.events, vec!["mw1_before", "mw2_before", "run", "mw2_after", "mw1_after"]);
    assert_eq!(stages, vec![Stage::Before(0), Stage::Before(1), Stage::Handler, Stage::After(1), Stage::After(0)]);
    assert_eq!(hooks.stages, stages);
}

#[test]
fn test_middleware_execution_order() {
    let mut hooks = Recorder { stages: vec![], names: vec!["mw"], events: vec![], fail_before: None, fail_handler: false };
    let mut ctx = empty_context();
    let (res, _) = run_pipeline(&mut hooks, 1, &mut ctx);
    assert!(res.is_ok());
    assert_eq!(hooks.events, vec!["mw_before", "run", "mw_after"]);
}

#[test]
fn failing_before_hook_stops_everything() {
    let mut hooks = Recorder { stages: vec![], names: vec!["mw1", "mw2"], events: vec![], fail_before: Some(0), fail_handler: false };
    let mut ctx = empty_context();
    let (res, stages) = run_pipeline(&mut hooks, 2, &mut ctx);
    assert!(res.is_err());
    assert_eq!(hooks.events, vec!["mw1_before"]);
    assert_eq!(stages, vec![Stage::Before(0)]);
}

#[test]
fn failing_handler_skips_after_hooks() {
    let mut hooks = Recorder { stages: vec![], names: vec!["mw1"], events: vec![], fail_before: None, fail_handler: true };
    let mut ctx = empty_context();
    let (res, _) = run_pipeline(&mut hooks, 1, &mut ctx);
    assert_eq!(res.unwrap_err().message(), "handler");
    assert_eq!(hooks.events, vec!["mw1_before", "run"]);
}

#[test]
fn no_middleware_runs_handler_only() {
    let mut hooks = Recorder { stages: vec![], names: vec![], events: vec![], fail_before: None, fail_handler: false };
    let mut ctx = empty_context();
    let (res, stages) = run_pipeline(&mut hooks, 0, &mut ctx);
    assert!(res.is_ok());
    assert_eq!(stages, vec![Stage::Handler]);
}

#[test]
fn test_middleware_skipped_on_help() {
    let app = CommandDef::new("prog", "");
    let res = run(&app, &["prog", "--help"]).unwrap();
    assert!(matches!(res, Dispatch::Help(_)), "Middleware should NOT run on help");
}

#[test]
fn test_middleware_runs_normally() {
    let app = CommandDef::new("prog", "");
    let res = run(&app, &["prog"]).unwrap();
    assert!(matches!(res, Dispatch::Run(_, _)), "Middleware SHOULD run normally");
}
