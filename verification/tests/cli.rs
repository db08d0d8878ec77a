use herdr_sidebar::cli::{
    parse, parse_number, require_herdr, Arg, Cli, Config, ContextPane, EnvValue, Environment, Options,
};
use herdr_sidebar::error::SidebarError;

fn args(items: &[Option<&str>]) -> Vec<Arg> {
    items
        .iter()
        .map(|a| match a {
            Some(text) => Arg::Text((*text).into()),
            None => Arg::NotUnicode { shown: "\u{FFFD}".into() },
        })
        .collect()
}

#[test]
fn commands_without_options() {
    assert!(matches!(parse(&args(&[])), Ok(Cli::Help)));
    assert!(matches!(parse(&args(&[Some("--help")])), Ok(Cli::Help)));
    assert!(matches!(parse(&args(&[Some("-h")])), Ok(Cli::Help)));
    assert!(matches!(parse(&args(&[Some("--version")])), Ok(Cli::Version)));
    assert!(matches!(parse(&args(&[Some("-V")])), Ok(Cli::Version)));
    assert!(matches!(parse(&args(&[Some("attach")])), Ok(Cli::Attach)));
    assert!(matches!(parse(&args(&[Some("attach"), Some("x")])), Err(SidebarError::UnexpectedArgument)));
    assert!(matches!(parse(&args(&[Some("--version"), None])), Err(SidebarError::UnexpectedArgument)));
    assert!(matches!(parse(&args(&[Some("nonsense")])), Err(SidebarError::UnknownCommand)));
    assert!(matches!(parse(&args(&[None])), Err(SidebarError::UnknownCommand)));
}

#[test]
fn open_options_are_read_in_order() {
    match parse(&args(&[Some("open")])) {
        Ok(Cli::Open(o)) => {
            assert_eq!(o.pane, None);
            assert_eq!(o.recover_session, None);
            assert!(!o.retry_launch && !o.retry_fork);
        }
        other => panic!("{other:?}"),
    }
    match parse(&args(&[
        Some("open"),
        Some("--pane"),
        Some("w1:p2"),
        Some("--retry-launch"),
        Some("--recover-session"),
        Some("ses_fork"),
        Some("--retry-fork"),
    ])) {
        Ok(Cli::Open(o)) => {
            assert_eq!(o.pane.as_deref(), Some("w1:p2"));
            assert_eq!(o.recover_session.as_deref(), Some("ses_fork"));
            assert!(o.retry_launch && o.retry_fork);
        }
        other => panic!("{other:?}"),
    }
    assert!(matches!(parse(&args(&[Some("open"), Some("--help"), None])), Ok(Cli::Help)));
    assert!(matches!(parse(&args(&[Some("open"), Some("--pane")])), Err(SidebarError::MissingOptionValue)));
    assert!(matches!(parse(&args(&[Some("open"), Some("--pane"), Some("-x")])), Err(SidebarError::MissingOptionValue)));
    assert!(matches!(parse(&args(&[Some("open"), Some("--pane"), Some("")])), Err(SidebarError::MissingOptionValue)));
    assert!(matches!(parse(&args(&[Some("open"), Some("--recover-session"), None])), Err(SidebarError::NonUtf8Id)));
    match parse(&args(&[Some("open"), Some("--retry-fork"), Some("--bogus")])) {
        Err(e @ SidebarError::UnknownOption { .. }) => assert_eq!(e.message(), "unknown option --bogus; use --help"),
        other => panic!("{other:?}"),
    }
    match parse(&args(&[Some("open"), None])) {
        Err(SidebarError::UnknownOption { option }) => assert_eq!(option, "\u{FFFD}"),
        other => panic!("{other:?}"),
    }
}

#[test]
fn numbers_read_like_unsigned_parsing() {
    assert_eq!(parse_number("30000").unwrap(), 30000);
    assert_eq!(parse_number("+5").unwrap(), 5);
    assert_eq!(parse_number("007").unwrap(), 7);
    assert_eq!(parse_number("18446744073709551615").unwrap(), u64::MAX);
    assert!(matches!(parse_number(""), Err(SidebarError::NumberEmpty)));
    assert!(matches!(parse_number("+"), Err(SidebarError::NumberInvalidDigit)));
    assert!(matches!(parse_number("-"), Err(SidebarError::NumberInvalidDigit)));
    assert!(matches!(parse_number("-5"), Err(SidebarError::NumberInvalidDigit)));
    assert!(matches!(parse_number("12a"), Err(SidebarError::NumberInvalidDigit)));
    assert!(matches!(parse_number(" 1"), Err(SidebarError::NumberInvalidDigit)));
    assert!(matches!(parse_number("18446744073709551616"), Err(SidebarError::NumberTooLarge)));
    assert!(matches!(parse_number("99999999999999999999x"), Err(SidebarError::NumberTooLarge)));
    for text in ["0", "+12", "18446744073709551615", "18446744073709551616", "1x", ""] {
        assert_eq!(parse_number(text).ok(), text.parse::<u64>().ok());
    }
}

fn environment() -> Environment {
    Environment {
        context: ContextPane::Unavailable,
        pane_id: EnvValue::Text("w1:p1".into()),
        timeout: EnvValue::Missing,
        legacy_timeout: EnvValue::Missing,
        socket: EnvValue::Text("/run/herdr.sock".into()),
        has_state_dir: true,
    }
}

#[test]
fn configuration_prefers_option_then_context_then_pane_variable() {
    let c = Config::from_env(&Options::default(), &environment()).unwrap();
    assert_eq!(c.pane, "w1:p1");
    assert_eq!(c.socket, "/run/herdr.sock");
    assert_eq!(c.timeout_ms, 30000);
    let mut env = environment();
    env.context = ContextPane::Pane { id: "w1:p7".into() };
    env.pane_id = EnvValue::Text("w1:p99".into());
    assert_eq!(Config::from_env(&Options::default(), &env).unwrap().pane, "w1:p7");
    let options = Options { pane: Some("w1:p3".into()), ..Options::default() };
    assert_eq!(Config::from_env(&options, &env).unwrap().pane, "w1:p3");
    env.context = ContextPane::Invalid { reason: "expected value".into() };
    assert!(matches!(Config::from_env(&Options::default(), &env), Err(SidebarError::InvalidContext { .. })));
    let mut env = environment();
    env.pane_id = EnvValue::Missing;
    assert!(matches!(Config::from_env(&Options::default(), &env), Err(SidebarError::MissingSourcePane { .. })));
}

#[test]
fn timeout_comes_from_the_current_or_legacy_variable() {
    let mut env = environment();
    env.legacy_timeout = EnvValue::Text("1500".into());
    assert_eq!(Config::from_env(&Options::default(), &env).unwrap().timeout_ms, 1500);
    env.timeout = EnvValue::Text("800".into());
    assert_eq!(Config::from_env(&Options::default(), &env).unwrap().timeout_ms, 800);
    env.timeout = EnvValue::Text("0".into());
    assert!(matches!(Config::from_env(&Options::default(), &env), Err(SidebarError::ZeroTimeout)));
    env.timeout = EnvValue::Text("soon".into());
    match Config::from_env(&Options::default(), &env) {
        Err(SidebarError::InvalidTimeout { cause }) => assert!(matches!(*cause, SidebarError::NumberInvalidDigit)),
        other => panic!("{other:?}"),
    }
    env.timeout = EnvValue::NotUnicode { shown: "\"\\xFF\"".into() };
    match Config::from_env(&Options::default(), &env) {
        Err(e @ SidebarError::EnvNotUnicode { .. }) => {
            assert_eq!(e.message(), "environment variable was not valid unicode: \"\\xFF\"")
        }
        other => panic!("{other:?}"),
    }
    let mut env = environment();
    env.legacy_timeout = EnvValue::NotUnicode { shown: "x".into() };
    assert!(matches!(Config::from_env(&Options::default(), &env), Err(SidebarError::EnvNotUnicode { .. })));
}

#[test]
fn socket_and_state_directory_are_required() {
    let mut env = environment();
    env.socket = EnvValue::Missing;
    assert!(matches!(Config::from_env(&Options::default(), &env), Err(SidebarError::MissingSocket { .. })));
    let mut env = environment();
    env.has_state_dir = false;
    assert!(matches!(Config::from_env(&Options::default(), &env), Err(SidebarError::MissingStateDir)));
    let mut env = environment();
    env.timeout = EnvValue::Text("x".into());
    env.socket = EnvValue::Missing;
    assert!(matches!(Config::from_env(&Options::default(), &env), Err(SidebarError::InvalidTimeout { .. })));
}

#[test]
fn herdr_environment_is_required() {
    assert!(require_herdr(&EnvValue::Text("1".into())).is_ok());
    assert!(matches!(require_herdr(&EnvValue::Text("0".into())), Err(SidebarError::NotInHerdr)));
    assert!(matches!(require_herdr(&EnvValue::Missing), Err(SidebarError::NotInHerdr)));
    assert!(matches!(require_herdr(&EnvValue::NotUnicode { shown: "x".into() }), Err(SidebarError::NotInHerdr)));
}
