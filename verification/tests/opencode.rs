use herdr_sidebar::opencode::Connection;

fn argv(args: &[&str]) -> Vec<String> {
    args.iter().map(|s| (*s).into()).collect()
}

#[test]
fn connection_options_and_literal_prompt_values() {
    for args in [
        argv(&["opencode", "--server", "http://localhost:4096"]),
        argv(&["opencode", "--server=http://localhost:4096"]),
    ] {
        assert_eq!(
            Connection::from_argv(&args, None)
                .unwrap()
                .server
                .as_deref(),
            Some("http://localhost:4096")
        );
    }
    assert!(Connection::from_argv(&argv(&["opencode", "--standalone"]), None).is_err());
    assert!(
        Connection::from_argv(&argv(&["opencode", "--server", "--session"]), None).is_err()
    );
    assert!(
        Connection::from_argv(&argv(&["opencode", "--prompt", "--standalone"]), None).is_ok()
    );
    assert_eq!(
        Connection::from_argv(&argv(&["./bin/opencode"]), Some("/project"))
            .unwrap()
            .binary,
        "/project/./bin/opencode"
    );
}

use herdr_sidebar::error::SidebarError;
use herdr_sidebar::herdr::Foreground;
use herdr_sidebar::opencode::{attach_arguments, names_opencode, validate_id, Fork, Location, Session};

fn session(id: &str, dir: &str, parent: Option<&str>) -> Session {
    Session {
        id: id.into(),
        location: Location { directory: dir.into() },
        fork: parent.map(|p| Fork { session_id: p.into() }),
    }
}

#[test]
fn session_ids_are_prefixed_ascii_words() {
    assert!(validate_id("ses_abc123").is_ok());
    assert!(validate_id("ses_A_b").is_ok());
    assert!(matches!(validate_id("ses_"), Err(SidebarError::InvalidSessionId)));
    assert!(validate_id("abc_defg").is_err());
    assert!(validate_id("ses_a-b").is_err());
    assert!(validate_id("ses_é").is_err());
    assert!(validate_id("").is_err());
}

#[test]
fn server_options_later_wins_and_double_dash_ends() {
    let c = Connection::from_argv(
        &argv(&["opencode", "--server", "http://a", "--server=http://b"]),
        None,
    )
    .unwrap();
    assert_eq!(c.server.as_deref(), Some("http://b"));
    let c = Connection::from_argv(&argv(&["opencode", "--", "--standalone"]), None).unwrap();
    assert_eq!(c.server, None);
    let c = Connection::from_argv(&argv(&["opencode", "-s", "--server", "run"]), None).unwrap();
    assert_eq!(c.server, None);
    let c = Connection::from_argv(&argv(&["opencode", "--session", "--server", "--server", "http://c"]), None).unwrap();
    assert_eq!(c.server.as_deref(), Some("http://c"));
    assert!(Connection::from_argv(&argv(&["opencode", "--prompt"]), None).is_ok());
}

#[test]
fn unusable_server_values_are_refused() {
    assert!(matches!(
        Connection::from_argv(&argv(&["opencode", "--server="]), None),
        Err(SidebarError::MissingServerUrl)
    ));
    assert!(matches!(
        Connection::from_argv(&argv(&["opencode", "--server"]), None),
        Err(SidebarError::MissingServerUrl)
    ));
    assert!(matches!(
        Connection::from_argv(&argv(&["opencode", "--server=-x"]), None),
        Err(SidebarError::MissingServerUrl)
    ));
    assert!(matches!(
        Connection::from_argv(&argv(&["opencode", "--standalone"]), None),
        Err(SidebarError::StandaloneServer)
    ));
    assert!(matches!(Connection::from_argv(&argv(&[]), None), Err(SidebarError::NoArgv)));
}

#[test]
fn relative_executables_resolve_against_the_process_directory() {
    let c = Connection::from_argv(&argv(&["bin/opencode"]), Some("/p/")).unwrap();
    assert_eq!(c.binary, "/p/bin/opencode");
    let c = Connection::from_argv(&argv(&["./opencode"]), Some("/p")).unwrap();
    assert_eq!(c.binary, "/p/./opencode");
    let c = Connection::from_argv(&argv(&["opencode"]), Some("/p")).unwrap();
    assert_eq!(c.binary, "opencode");
    let c = Connection::from_argv(&argv(&["opencode/"]), Some("/p")).unwrap();
    assert_eq!(c.binary, "opencode/");
    let c = Connection::from_argv(&argv(&["/usr/bin/opencode"]), Some("/p")).unwrap();
    assert_eq!(c.binary, "/usr/bin/opencode");
    assert!(matches!(
        Connection::from_argv(&argv(&["bin/opencode"]), None),
        Err(SidebarError::NoProcessCwd)
    ));
}

#[test]
fn executable_names_follow_the_final_path_component() {
    assert!(names_opencode("opencode"));
    assert!(names_opencode("/usr/local/bin/opencode"));
    assert!(names_opencode("./opencode/"));
    assert!(names_opencode("opencode/."));
    assert!(!names_opencode("opencode/.."));
    assert!(!names_opencode("opencode-cli"));
    assert!(!names_opencode("/"));
    assert!(!names_opencode("."));
    assert!(!names_opencode(""));
}

#[test]
fn discovery_takes_the_first_opencode_process() {
    let processes = vec![
        Foreground { argv: argv(&["zsh"]), cwd: Some("/home".into()) },
        Foreground { argv: vec![], cwd: None },
        Foreground { argv: argv(&["./opencode", "--server", "http://s"]), cwd: Some("/w".into()) },
        Foreground { argv: argv(&["opencode", "--server", "http://t"]), cwd: None },
    ];
    let c = Connection::discover(&processes).unwrap();
    assert_eq!(c.binary, "/w/./opencode");
    assert_eq!(c.server.as_deref(), Some("http://s"));
    let none = vec![Foreground { argv: argv(&["bash"]), cwd: None }];
    assert!(matches!(Connection::discover(&none), Err(SidebarError::ProcessNotFound)));
    let broken = vec![Foreground { argv: argv(&["opencode", "--standalone"]), cwd: None }];
    assert!(matches!(Connection::discover(&broken), Err(SidebarError::StandaloneServer)));
}

#[test]
fn api_requests_carry_server_method_path_and_body() {
    let c = Connection { binary: "/bin/opencode".into(), server: Some("http://s".into()) };
    let get = c.get_request("ses_p", ".").unwrap();
    assert_eq!(get.program, "/bin/opencode");
    assert_eq!(get.cwd, ".");
    assert_eq!(get.args, argv(&["api", "--server", "http://s", "get", "/api/session/ses_p"]));
    let fork = c.fork_request("ses_p", "/w").unwrap();
    assert_eq!(fork.cwd, "/w");
    assert_eq!(
        fork.args,
        argv(&["api", "--server", "http://s", "post", "/api/session/ses_p/fork", "--data", "{}"])
    );
    let plain = Connection { binary: "opencode".into(), server: None };
    let history = plain.history_request("ses_p", "/w").unwrap();
    assert_eq!(history.args, argv(&["api", "get", "/api/session/ses_p/message?limit=1"]));
    assert!(matches!(plain.get_request("p", "."), Err(SidebarError::InvalidSessionId)));
    assert!(matches!(plain.fork_request("", "."), Err(SidebarError::InvalidSessionId)));
}

#[test]
fn answers_are_checked_against_the_request() {
    let c = Connection { binary: "opencode".into(), server: None };
    assert!(c.get("ses_p", session("ses_p", "/w", None)).is_ok());
    assert!(matches!(c.get("ses_p", session("ses_q", "/w", None)), Err(SidebarError::DifferentSession)));
    let parent = String::from("ses_p");
    let forked = c.fork(&parent, session("ses_f", "/w", Some("ses_p"))).unwrap();
    assert_eq!(forked.id, "ses_f");
    match c.fork(&parent, session("ses_f", "/w", Some("ses_x"))) {
        Err(SidebarError::NotAFork { parent }) => assert_eq!(parent, "ses_p"),
        other => panic!("{other:?}"),
    }
    assert!(matches!(c.fork(&parent, session("ses_p", "/w", Some("ses_p"))), Err(SidebarError::NotAFork { .. })));
    assert!(matches!(c.fork(&parent, session("bad id", "/w", Some("ses_p"))), Err(SidebarError::InvalidSessionId)));
    assert!(c.ensure_forkable(1).is_ok());
    assert!(matches!(c.ensure_forkable(0), Err(SidebarError::EmptyConversation)));
}

#[test]
fn attach_arguments_name_server_then_session() {
    assert_eq!(
        attach_arguments("ses_fork", Some("http://localhost:4096")).unwrap(),
        argv(&["--server", "http://localhost:4096", "--session", "ses_fork"])
    );
    assert_eq!(attach_arguments("ses_fork", Some("")).unwrap(), argv(&["--session", "ses_fork"]));
    assert_eq!(attach_arguments("ses_fork", None).unwrap(), argv(&["--session", "ses_fork"]));
    assert!(matches!(attach_arguments("fork", None), Err(SidebarError::InvalidSessionId)));
}
