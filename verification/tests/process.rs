use herdr_sidebar::error::SidebarError;
use herdr_sidebar::herdr::{attach_wait, Attachment, PaneRef};
use herdr_sidebar::process::{command_outcome, command_verdict, command_wait, Wait};
use herdr_sidebar::state::lock_wait;

fn outcome(
    out_len: usize,
    success: bool,
    parse_error: Option<&str>,
    error_field: Option<&str>,
) -> Result<(), SidebarError> {
    command_outcome(
        &"herdr".to_string(),
        out_len,
        0,
        success,
        &"exit status: 2".to_string(),
        &"boom".to_string(),
        &"{}".to_string(),
        parse_error.map(String::from),
        error_field.map(String::from),
    )
}

#[test]
fn running_command_is_polled_until_its_timeout() {
    assert!(matches!(command_wait(true, 5000, 100), Wait::Done));
    assert!(matches!(command_wait(false, 99, 100), Wait::Poll));
    assert!(matches!(command_wait(false, 100, 100), Wait::TimedOut));
    assert_eq!(
        SidebarError::CommandTimedOut { program: "herdr".into(), timeout_ms: 250 }.message(),
        "herdr timed out after 250 ms"
    );
}

#[test]
fn finished_command_is_judged_in_order() {
    assert!(outcome(2, true, None, None).is_ok());
    match outcome(4 * 1024 * 1024 + 1, false, Some("bad"), Some("\"x\"")) {
        Err(e) => assert_eq!(e.message(), "herdr output exceeded 4 MiB"),
        Ok(()) => panic!("oversized output accepted"),
    }
    match outcome(2, false, Some("bad"), None) {
        Err(e) => assert_eq!(e.message(), "herdr failed (exit status: 2): boom{}"),
        Ok(()) => panic!("failed command accepted"),
    }
    match outcome(2, true, Some("expected value at line 1 column 1"), None) {
        Err(e) => assert_eq!(e.message(), "invalid JSON from herdr: expected value at line 1 column 1"),
        Ok(()) => panic!("invalid JSON accepted"),
    }
    match outcome(2, true, None, Some("\"no such pane\"")) {
        Err(e) => assert_eq!(e.message(), "herdr: \"no such pane\""),
        Ok(()) => panic!("reported error accepted"),
    }
}

#[test]
fn lock_is_awaited_until_its_timeout() {
    assert!(matches!(lock_wait(true, 9000, 100), Ok(true)));
    assert!(matches!(lock_wait(false, 10, 100), Ok(false)));
    match lock_wait(false, 100, 100) {
        Err(e) => assert_eq!(e.message(), "another sidebar action is still running; retry shortly"),
        _ => panic!("lock wait did not give up"),
    }
}

#[test]
fn attach_wait_ends_on_ready_closed_or_deadline() {
    let side = PaneRef { pane_id: "w1:p2".into(), terminal_id: "t2".into() };
    let session = "ses_fork".to_string();
    assert!(matches!(attach_wait(0, Attachment::Ready, &side, &session), Ok(true)));
    assert!(matches!(attach_wait(10, Attachment::Starting, &side, &session), Ok(false)));
    match attach_wait(10, Attachment::Closed, &side, &session) {
        Err(e) => assert_eq!(
            e.message(),
            "side pane closed before OpenCode attached; retry to reopen the saved fork"
        ),
        _ => panic!("closed pane awaited"),
    }
    match attach_wait(0, Attachment::Starting, &side, &session) {
        Err(e) => assert_eq!(
            e.message(),
            "pane w1:p2 did not attach to ses_fork in time; retry the action after startup"
        ),
        _ => panic!("deadline ignored"),
    }
}

fn verdict(out: &[u8], success: bool) -> Result<(), SidebarError> {
    command_verdict(
        &"opencode".to_string(),
        &out.to_vec(),
        0,
        success,
        &"exit status: 1".to_string(),
        &String::new(),
        &String::from_utf8_lossy(out).into_owned(),
    )
}

#[test]
fn command_output_is_read_as_json_before_it_is_trusted() {
    assert!(verdict(b"{\"id\":\"ses_fork\"}", true).is_ok());
    match verdict(b"not json", true) {
        Err(SidebarError::InvalidJson { program, reason }) => {
            assert_eq!(program, "opencode");
            assert!(!reason.is_empty());
        }
        other => panic!("{other:?}"),
    }
    match verdict(b"{\"error\":\"no such session\"}", true) {
        Err(e) => assert_eq!(e.message(), "opencode: \"no such session\""),
        Ok(()) => panic!("reported error accepted"),
    }
    match verdict(b"not json", false) {
        Err(e) => assert_eq!(e.message(), "opencode failed (exit status: 1): not json"),
        Ok(()) => panic!("failed command accepted"),
    }
}
