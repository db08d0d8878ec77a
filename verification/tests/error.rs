use herdr_sidebar::error::SidebarError;
use herdr_sidebar::process::check_output_size;
use herdr_sidebar::text::decimal_text;

fn external(reason: &str) -> Box<SidebarError> {
    Box::new(SidebarError::External { reason: reason.into() })
}

#[test]
fn messages_name_what_went_wrong() {
    assert_eq!(SidebarError::UnknownCommand.message(), "unknown command; use --help");
    assert_eq!(
        SidebarError::UnsupportedVersion { version: 7 }.message(),
        "unsupported sidebar state version 7"
    );
    assert_eq!(
        SidebarError::NotAFork { parent: "ses_p".into() }.message(),
        "OpenCode did not return a fork of ses_p"
    );
    assert_eq!(
        SidebarError::MultiplePanes { session: "ses_f".into() }.message(),
        "multiple panes display ses_f; close the extra attachment before retrying"
    );
    assert_eq!(
        SidebarError::ForkNotSaved { fork: "ses_f".into(), cause: external("disk full") }.message(),
        "fork ses_f exists; recover it with open --recover-session ses_f: disk full"
    );
    assert_eq!(
        SidebarError::LaunchFailed { session: "ses_fork".into(), cause: external("rejected") }.message(),
        "fork ses_fork is saved; retry the action to reconcile its pane, or use open --retry-launch after checking the layout: rejected"
    );
    assert_eq!(
        SidebarError::NotAttached {
            pane: "w1:p2".into(),
            session: "ses_f".into(),
            cause: Box::new(SidebarError::SideClosed),
        }
        .message(),
        "pane w1:p2 did not attach to ses_f; retry once startup settles: side pane closed before OpenCode attached; retry to reopen the saved fork"
    );
    assert!(SidebarError::ForkUnconfirmed { cause: external("timed out") }
        .message()
        .starts_with("fork outcome could not be confirmed"));
    assert!(SidebarError::ForkOutcomeUnknown.message().starts_with("previous fork outcome is unknown"));
    assert_eq!(
        SidebarError::MissingSourcePane { cause: Box::new(SidebarError::EnvMissing) }.message(),
        "missing source pane; use --pane PANE_ID: environment variable not found"
    );
    assert_eq!(
        SidebarError::AttachTimeout { pane: "w1:p2".into(), session: "ses_f".into() }.message(),
        "pane w1:p2 did not attach to ses_f in time; retry the action after startup"
    );
}

#[test]
fn decimal_notation_has_no_leading_zeros() {
    assert_eq!(decimal_text(0), "0");
    assert_eq!(decimal_text(7), "7");
    assert_eq!(decimal_text(4096), "4096");
    assert_eq!(decimal_text(u64::MAX), u64::MAX.to_string());
}

#[test]
fn output_is_limited_to_four_mebibytes() {
    let program = String::from("herdr");
    assert!(check_output_size(&program, 4 * 1024 * 1024, 0).is_ok());
    match check_output_size(&program, 0, 4 * 1024 * 1024 + 1) {
        Err(e) => assert_eq!(e.message(), "herdr output exceeded 4 MiB"),
        Ok(()) => panic!("accepted"),
    }
}
