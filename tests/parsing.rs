use koral::{
    AcceptAll, Context, EnvProvider, ErrorKind, FlagDef, FlagValue, KoralError, Parser, Validator,
};

fn strings(v: &[&str]) -> Vec<String> {
    v.iter().map(|s| s.to_string()).collect()
}

fn flag_str(ctx: &Context, name: &str) -> Option<Option<FlagValue>> {
    ctx.flags.get(name).cloned()
}

fn verbose_force_name() -> Vec<FlagDef> {
    vec![
        FlagDef::new("verbose").short('v'),
        FlagDef::new("force").short('f'),
        FlagDef::new("name").takes_value(true).default_value(""),
    ]
}

fn flags_test_catalog() -> Vec<FlagDef> {
    vec![
        FlagDef::new("verbose").short('v'),
        FlagDef::new("name").short('n').takes_value(true),
        FlagDef::new("count").short('c').takes_value(true).default_value("1"),
        FlagDef::new("opt").short('o').takes_value(true),
    ]
}

#[test]
fn test_combined_short_flags() {
    let parser = Parser::new(verbose_force_name());
    let ctx = parser.parse(&strings(&["-vf"])).unwrap();
    assert!(ctx.bool_flag("verbose"), "Verbose should be true");
    assert!(ctx.bool_flag("force"), "Force should be true");
}

#[test]
fn test_long_flag_equals() {
    let parser = Parser::new(verbose_force_name());
    let ctx = parser.parse(&strings(&["--name=Alice"])).unwrap();
    assert_eq!(ctx.value_flag("name"), Some("Alice".to_string()), "Name should be Alice");
}

#[test]
fn test_bool_flag() {
    let parser = Parser::new(flags_test_catalog());
    assert!(parser.parse(&strings(&["-v"])).unwrap().bool_flag("verbose"));
    assert!(parser.parse(&strings(&["--verbose"])).unwrap().bool_flag("verbose"));
    assert!(!parser.parse(&strings(&[])).unwrap().bool_flag("verbose"));
}

#[test]
fn test_string_flag() {
    let parser = Parser::new(flags_test_catalog());
    let ctx = parser.parse(&strings(&["-n", "Alice"])).unwrap();
    assert_eq!(ctx.value_flag("name"), Some("Alice".to_string()));
    let ctx = parser.parse(&strings(&["--name", "Bob"])).unwrap();
    assert_eq!(ctx.value_flag("name"), Some("Bob".to_string()));
    let ctx = parser.parse(&strings(&["--name=Charlie"])).unwrap();
    assert_eq!(ctx.value_flag("name"), Some("Charlie".to_string()));
}

#[test]
fn test_int_flag() {
    let parser = Parser::new(flags_test_catalog());
    let ctx = parser.parse(&strings(&["-c", "10"])).unwrap();
    assert_eq!(ctx.value_flag("count"), Some("10".to_string()));
    let ctx = parser.parse(&strings(&[])).unwrap();
    assert_eq!(ctx.value_flag("count"), Some("1".to_string()));
}

#[test]
fn test_option_flag() {
    let parser = Parser::new(flags_test_catalog());
    let ctx = parser.parse(&strings(&["-o", "value"])).unwrap();
    assert_eq!(ctx.value_flag("opt"), Some("value".to_string()));
    let ctx = parser.parse(&strings(&[])).unwrap();
    assert_eq!(ctx.value_flag("opt"), None);
}

#[test]
fn test_negative_number_as_positional() {
    let parser = Parser::new(vec![]);
    let args = strings(&["neg_test", "-100", "-5.5"]);
    let ctx = parser.parse(&args[1..].to_vec()).unwrap();
    assert_eq!(ctx.args.len(), 2);
    assert_eq!(ctx.args[0], "-100");
    assert_eq!(ctx.args[1], "-5.5");
}

#[test]
fn test_negative_number() {
    let parser = Parser::new(vec![FlagDef::new("flag").short('f').takes_value(true)]).strict(true);
    let ctx = parser.parse(&strings(&["-1", "-3.14"])).unwrap();
    assert_eq!(ctx.args, vec!["-1", "-3.14"]);
}

#[test]
fn numbers_in_float_syntax_are_positionals_in_strict_mode() {
    let parser = Parser::new(vec![FlagDef::new("flag").short('f').takes_value(true)]).strict(true);
    let args = strings(&["-1e5", "-.5", "-5.", "-inf", "-NaN", "-2.5E-3"]);
    let ctx = parser.parse(&args).unwrap();
    assert_eq!(ctx.args, args);
    assert!(parser.parse(&strings(&["-1e"])).is_err());
    assert!(parser.parse(&strings(&["-1.2.3"])).is_err());
    assert!(parser.parse(&strings(&["-x5"])).is_err());
}

#[test]
fn test_delimiter() {
    let parser = Parser::new(vec![FlagDef::new("flag").short('f').takes_value(true)]);
    let ctx = parser.parse(&strings(&["--", "-f", "value"])).unwrap();
    assert_eq!(ctx.args, vec!["-f", "value"]);
    assert!(!ctx.flags.contains_key("flag"));
}

#[test]
fn test_typo_correction() {
    let parser = Parser::new(vec![FlagDef::new("flag").short('f').takes_value(true)]).strict(true);
    let err = parser.parse(&strings(&["--flagg"])).unwrap_err();
    match err {
        KoralError::UnknownFlag(msg) => {
            assert!(msg.contains("--flag"));
        }
        _ => panic!("Expected UnknownFlag error, got {:?}", err),
    }
}

#[test]
fn test_strict_mode_group_error() {
    let parser = Parser::new(vec![FlagDef::new("flag").short('f')]).strict(true);
    let res = parser.parse(&strings(&["-fx"]));
    assert!(res.is_err());
    let err = res.err().unwrap();
    match err {
        KoralError::UnknownFlag(msg) => {
            assert!(msg.contains("Unknown short flag '-x'"));
        }
        _ => panic!("Expected UnknownFlag error, got {:?}", err),
    }
}

#[test]
fn test_non_strict_mode_group_behavior() {
    let parser = Parser::new(vec![FlagDef::new("flag").short('f')]).strict(false);
    let ctx = parser.parse(&strings(&["-fx"])).expect("Non-strict mode should not error");
    assert_eq!(ctx.args, vec!["-fx"]);
    assert!(!ctx.flags.contains_key("flag"));
}

#[test]
fn test_strict_unknown_flags() {
    let parser = Parser::new(vec![FlagDef::new("verbose").short('v')]).strict(true);
    assert!(parser.parse(&strings(&["--unknown"])).is_err(), "--unknown should fail in strict mode");
    assert!(parser.parse(&strings(&["-x"])).is_err(), "-x should fail in strict mode");
}

#[test]
fn test_strict_valid() {
    let parser = Parser::new(vec![FlagDef::new("verbose").short('v')]).strict(true);
    parser.parse(&strings(&["-v"])).expect("Valid flags should pass");
}

#[test]
fn test_strict_known_flag() {
    let parser = Parser::new(vec![FlagDef::new("strict").short('s')]).strict(true);
    assert!(parser.parse(&strings(&["--strict"])).is_ok());
}

#[test]
fn test_strict_positional() {
    let parser = Parser::new(vec![FlagDef::new("strict").short('s')]).strict(true);
    assert!(parser.parse(&strings(&["positional"])).is_ok());
}

#[test]
fn test_strict_dash_positional() {
    let parser = Parser::new(vec![FlagDef::new("strict").short('s')]).strict(true);
    assert!(parser.parse(&strings(&["-x"])).is_err());
}

#[test]
fn test_flag_alias() {
    let parser = Parser::new(vec![FlagDef::new("list").alias("ls").alias("l")]);
    for t in ["--list", "--ls", "--l"] {
        let ctx = parser.parse(&strings(&[t])).unwrap();
        assert!(ctx.bool_flag("list"));
    }
}

#[test]
fn test_missing_required_flag() {
    let parser = Parser::new(vec![
        FlagDef::new("token").takes_value(true).required(true),
        FlagDef::new("optional").takes_value(true),
    ]);
    let err = parser.parse(&strings(&[])).unwrap_err();
    match err {
        KoralError::MissingArgument(msg) => {
            assert!(msg.contains("Required flag '--token' is missing"));
        }
        _ => panic!("Expected MissingArgument error, got {:?}", err),
    }
}

#[test]
fn test_present_required_flag() {
    let parser = Parser::new(vec![
        FlagDef::new("token").takes_value(true).required(true),
        FlagDef::new("optional").takes_value(true),
    ]);
    assert!(parser.parse(&strings(&["--token", "abc"])).is_ok());
}

#[test]
fn test_required_and_optional() {
    let parser = Parser::new(vec![
        FlagDef::new("token").takes_value(true).required(true),
        FlagDef::new("optional").takes_value(true),
    ]);
    let ctx = parser.parse(&strings(&["--token", "abc", "--optional", "def"])).unwrap();
    assert_eq!(ctx.value_flag("optional"), Some("def".to_string()));
}

struct Positive;

impl Validator for Positive {
    fn validate(&self, flag: &FlagDef, value: &String) -> Result<(), String> {
        self.verdict(flag, value)
    }

    fn verdict(&self, _flag: &FlagDef, value: &String) -> Result<(), String> {
        let val: i32 = value.parse().map_err(|_| "Must be a number".to_string())?;
        if val > 0 {
            Ok(())
        } else {
            Err("Must be positive".to_string())
        }
    }
}

fn positive_parser() -> Parser {
    Parser::new(vec![FlagDef::new("positive").takes_value(true)])
}

#[test]
fn constraints_are_checked_flag_by_flag_in_catalog_order() {
    let bad_first = Parser::new(vec![
        FlagDef::new("positive").takes_value(true),
        FlagDef::new("token").takes_value(true).required(true),
    ]);
    let err = bad_first.parse_validated(&strings(&["--positive", "abc"]), &Positive).unwrap_err();
    assert_eq!(err.kind(), ErrorKind::Validation);
    assert_eq!(err.message(), "Invalid value for flag 'positive': Must be a number");
    let missing_first = Parser::new(vec![
        FlagDef::new("token").takes_value(true).required(true),
        FlagDef::new("positive").takes_value(true),
    ]);
    let err = missing_first.parse_validated(&strings(&["--positive", "abc"]), &Positive).unwrap_err();
    assert_eq!(err.kind(), ErrorKind::MissingArgument);
}

#[test]
fn validator_sees_only_value_payloads() {
    let p = Parser::new(vec![FlagDef::new("positive"), FlagDef::new("n").takes_value(true)]);
    let ctx = p.parse_validated(&strings(&["--positive", "--n", "3"]), &Positive).unwrap();
    assert!(ctx.bool_flag("positive"));
    assert_eq!(ctx.value_flag("n"), Some("3".to_string()));
}

#[test]
fn test_validator_success() {
    let res = positive_parser().parse_validated(&strings(&["--positive", "10"]), &Positive);
    assert!(res.is_ok());
}

#[test]
fn test_validator_fail_not_number() {
    let res = positive_parser().parse_validated(&strings(&["--positive", "abc"]), &Positive);
    assert!(res.is_err());
    let err = res.err().unwrap().to_string();
    assert!(err.contains("Must be a number"));
}

#[test]
fn test_validator_fail_negative() {
    let res = positive_parser().parse_validated(&strings(&["--positive", "-5"]), &Positive);
    assert!(res.is_err());
    let err = res.err().unwrap().to_string();
    assert!(err.contains("Must be positive"));
}

fn env_catalog() -> Vec<FlagDef> {
    vec![
        FlagDef::new("envflag").takes_value(true).env("KORAL_TEST_ENV"),
        FlagDef::new("defaultflag").takes_value(true).default_value("default_value"),
    ]
}

fn test_env() -> EnvProvider {
    EnvProvider::new(vec![("KORAL_TEST_ENV".to_string(), "from_env".to_string())])
}

#[test]
fn test_env_var_flag() {
    let parser = Parser::new(env_catalog()).with_env(test_env());
    let ctx = parser.parse(&strings(&[])).unwrap();
    assert_eq!(ctx.value_flag("envflag"), Some("from_env".to_string()));
}

#[test]
fn test_env_override() {
    let parser = Parser::new(env_catalog()).with_env(test_env());
    let ctx = parser.parse(&strings(&["--envflag", "from_cli"])).unwrap();
    assert_eq!(ctx.value_flag("envflag"), Some("from_cli".to_string()));
}

#[test]
fn test_env_provider() {
    let env = EnvProvider::new(vec![("KORAL_TEST_ENV".to_string(), "env_value".to_string())]);
    let parser = Parser::new(env_catalog()).with_env(env);
    let ctx = parser.parse(&strings(&[])).expect("Parse failed");
    assert_eq!(ctx.value_flag("envflag"), Some("env_value".to_string()));
    assert_eq!(ctx.value_flag("defaultflag"), Some("default_value".to_string()));
}

#[test]
fn test_bool_flag_defaults_to_false() {
    let parser = Parser::new(vec![FlagDef::new("verbose").short('v')]);
    let ctx = parser.parse(&strings(&[])).unwrap();
    assert!(!ctx.bool_flag("verbose"));
}

#[test]
fn test_bool_flag_true() {
    let parser = Parser::new(vec![FlagDef::new("verbose").short('v')]);
    let ctx = parser.parse(&strings(&["--verbose"])).unwrap();
    assert!(ctx.bool_flag("verbose"));
}

// Own cases.

#[test]
fn concrete_scenario_verbose_and_name() {
    let parser = Parser::new(vec![
        FlagDef::new("verbose").short('v'),
        FlagDef::new("name").short('n').takes_value(true),
    ]);
    let ctx = parser.parse(&strings(&["-v", "--name=Ann"])).unwrap();
    assert_eq!(flag_str(&ctx, "verbose"), Some(Some(FlagValue::Boolean(true))));
    assert_eq!(flag_str(&ctx, "name"), Some(Some(FlagValue::Value("Ann".to_string()))));
    assert!(ctx.args.is_empty());
    assert_eq!(ctx.flags.entries.len(), 2);
}

#[test]
fn parsing_twice_gives_the_same_result() {
    let parser = Parser::new(flags_test_catalog());
    let args = strings(&["-vn", "Ann", "pos", "--count=3", "--", "-o"]);
    let a = parser.parse(&args).unwrap();
    let b = parser.parse(&args).unwrap();
    assert_eq!(a.flags.entries, b.flags.entries);
    assert_eq!(a.args, b.args);
}

#[test]
fn cli_beats_env_beats_default() {
    let cat = vec![FlagDef::new("level").takes_value(true).env("LEVEL").default_value("low")];
    let env = EnvProvider::new(vec![("LEVEL".to_string(), "mid".to_string())]);
    let p = Parser::new(cat).with_env(env);
    assert_eq!(p.parse(&strings(&["--level", "high"])).unwrap().value_flag("level"), Some("high".to_string()));
    assert_eq!(p.parse(&strings(&[])).unwrap().value_flag("level"), Some("mid".to_string()));
    let q = Parser::new(vec![FlagDef::new("level").takes_value(true).env("LEVEL").default_value("low")]);
    assert_eq!(q.parse(&strings(&[])).unwrap().value_flag("level"), Some("low".to_string()));
}

#[test]
fn boolean_from_env_is_falsy_for_false_words() {
    for (v, set) in [("FaLsE", false), ("0", false), ("", false), ("yes", true), ("1", true)] {
        let env = EnvProvider::new(vec![("QUIET".to_string(), v.to_string())]);
        let p = Parser::new(vec![FlagDef::new("quiet").env("QUIET").default_value("1")]).with_env(env);
        assert_eq!(p.parse(&strings(&[])).unwrap().bool_flag("quiet"), set, "value {:?}", v);
    }
}

#[test]
fn cluster_with_value_takes_the_rest() {
    let p = Parser::new(vec![FlagDef::new("verbose").short('v'), FlagDef::new("out").short('o').takes_value(true)]);
    let ctx = p.parse(&strings(&["-vofile.txt"])).unwrap();
    assert!(ctx.bool_flag("verbose"));
    assert_eq!(ctx.value_flag("out"), Some("file.txt".to_string()));
    let ctx = p.parse(&strings(&["-vo", "next"])).unwrap();
    assert_eq!(ctx.value_flag("out"), Some("next".to_string()));
}

#[test]
fn cluster_atomic_in_loose_mode() {
    let p = Parser::new(vec![FlagDef::new("a").short('a'), FlagDef::new("b").short('b')]);
    let ctx = p.parse(&strings(&["-abz"])).unwrap();
    assert_eq!(ctx.args, vec!["-abz"]);
    assert!(ctx.flags.entries.is_empty());
    let strict = Parser::new(vec![FlagDef::new("a").short('a'), FlagDef::new("b").short('b')]).strict(true);
    let err = strict.parse(&strings(&["-abz"])).unwrap_err();
    assert_eq!(err.kind(), ErrorKind::UnknownFlag);
    assert_eq!(err.message(), "Unknown short flag '-z' in group '-abz'");
}

#[test]
fn value_flag_without_value_is_missing_argument() {
    let p = Parser::new(vec![FlagDef::new("name").short('n').takes_value(true)]);
    let err = p.parse(&strings(&["--name"])).unwrap_err();
    assert_eq!(err.kind(), ErrorKind::MissingArgument);
    assert_eq!(err.message(), "Flag '--name' requires a value");
    let err = p.parse(&strings(&["-n"])).unwrap_err();
    assert_eq!(err.kind(), ErrorKind::MissingArgument);
}

#[test]
fn boolean_flag_with_value_is_validation_error() {
    let p = Parser::new(vec![FlagDef::new("verbose")]);
    let err = p.parse(&strings(&["--verbose=yes"])).unwrap_err();
    assert_eq!(err.kind(), ErrorKind::Validation);
    assert_eq!(err.message(), "Flag '--verbose' does not take a value");
}

#[test]
fn unknown_long_flag_without_near_name_has_no_suggestion() {
    let p = Parser::new(vec![FlagDef::new("verbose")]).strict(true);
    let err = p.parse(&strings(&["--zzzzzzzz"])).unwrap_err();
    assert_eq!(err.message(), "Unknown flag '--zzzzzzzz'");
    let err = p.parse(&strings(&["--verbos"])).unwrap_err();
    assert_eq!(err.message(), "Unknown flag '--verbos'\n\tDid you mean '--verbose'?");
}

#[test]
fn short_form_suggested_for_one_letter_typo() {
    let p = Parser::new(vec![FlagDef::new("output").short('o')]).strict(true);
    let err = p.parse(&strings(&["--p"])).unwrap_err();
    assert_eq!(err.message(), "Unknown flag '--p'\n\tDid you mean '-o'?");
}

#[test]
fn short_value_flag_at_cluster_end_without_token_sets_nothing() {
    let p = Parser::new(vec![FlagDef::new("verbose").short('v'), FlagDef::new("out").short('o').takes_value(true)]);
    let err = p.parse(&strings(&["-vo"])).unwrap_err();
    assert_eq!(err.kind(), ErrorKind::MissingArgument);
    assert_eq!(err.message(), "Flag '--out' requires a value");
}

#[test]
fn unknown_long_flag_is_positional_in_loose_mode() {
    let p = Parser::new(vec![]);
    let ctx = p.parse(&strings(&["--unknown", "x"])).unwrap();
    assert_eq!(ctx.args, vec!["--unknown", "x"]);
}

#[test]
fn accept_all_validator_keeps_result() {
    let p = Parser::new(vec![FlagDef::new("n").takes_value(true)]);
    let ctx = p.parse_validated(&strings(&["--n", "1"]), &AcceptAll).unwrap();
    assert_eq!(ctx.value_flag("n"), Some("1".to_string()));
}

#[test]
fn ignore_required_skips_the_check() {
    let p = Parser::new(vec![FlagDef::new("token").takes_value(true).required(true)]).ignore_required(true);
    assert!(p.parse(&strings(&[])).is_ok());
}

#[test]
fn error_display_has_kind_heading() {
    let p = Parser::new(vec![FlagDef::new("token").takes_value(true).required(true)]);
    let err = p.parse(&strings(&[])).unwrap_err();
    assert_eq!(err.to_string(), "Missing argument: Required flag '--token' is missing");
}
