//! Every way an invocation can fail, and the text shown for it.
use vstd::prelude::*;
use crate::text::{decimal, decimal_text, joined};

verus! {

/// Why an invocation failed.
#[derive(Debug)]
pub enum SidebarError {
    /// The first argument is not a known command.
    UnknownCommand,
    /// A command that takes no arguments was given one.
    UnexpectedArgument,
    /// `--pane` or `--recover-session` is missing its value, or the value looks like an option.
    MissingOptionValue,
    /// The value of `--pane` or `--recover-session` is not valid UTF-8.
    NonUtf8Id,
    /// The argument, shown here, is not a known option.
    UnknownOption { option: String },
    /// The action was started outside Herdr.
    NotInHerdr,
    /// An environment variable is not set.
    EnvMissing,
    /// An environment variable is not valid unicode; `shown` is its value as it is displayed.
    EnvNotUnicode { shown: String },
    /// Herdr's invocation context could not be read; the text says why.
    InvalidContext { reason: String },
    /// No source pane was given and none is known from the environment.
    MissingSourcePane { cause: Box<SidebarError> },
    /// A number to parse is empty.
    NumberEmpty,
    /// A number to parse holds something other than a decimal digit.
    NumberInvalidDigit,
    /// A number to parse does not fit in 64 bits.
    NumberTooLarge,
    /// The configured timeout is not a number of milliseconds.
    InvalidTimeout { cause: Box<SidebarError> },
    /// The configured timeout is zero.
    ZeroTimeout,
    /// `HERDR_SOCKET_PATH` is not set.
    MissingSocket { cause: Box<SidebarError> },
    /// `HERDR_PLUGIN_STATE_DIR` is not set.
    MissingStateDir,
    /// A session identifier is malformed.
    InvalidSessionId,
    /// The OpenCode process has an empty argument vector.
    NoArgv,
    /// The OpenCode process runs a standalone server.
    StandaloneServer,
    /// `--server` is given without a usable URL.
    MissingServerUrl,
    /// The executable path is relative and the process has no known working directory.
    NoProcessCwd,
    /// No foreground process of the pane is OpenCode.
    ProcessNotFound,
    /// OpenCode answered with another session than the one asked for.
    DifferentSession,
    /// OpenCode's answer to a fork request is not a fork of this session.
    NotAFork { parent: String },
    /// The conversation has no saved history.
    EmptyConversation,
    /// The saved mappings have a version this program does not know.
    UnsupportedVersion { version: u32 },
    /// The pane the action was invoked from no longer exists.
    SourcePaneGone,
    /// A recovery option was given but nothing is pending for this pane.
    NothingToRecover,
    /// The source pane does not run OpenCode.
    NotOpenCode,
    /// Herdr knows no OpenCode session for the source pane.
    NoSessionId,
    /// The fork request failed or its answer was unusable; it is not repeated automatically.
    ForkUnconfirmed { cause: Box<SidebarError> },
    /// The fork exists but could not be recorded.
    ForkNotSaved { fork: String, cause: Box<SidebarError> },
    /// Both `--retry-fork` and `--recover-session` were given.
    ConflictingRecovery,
    /// A fork is already recorded for the pending operation.
    ForkAlreadyRecorded,
    /// An explicitly retried fork request failed or its answer was unusable.
    RetriedForkUnconfirmed { cause: Box<SidebarError> },
    /// The session named for recovery is not a fork of the pending parent.
    RecoveryNotAFork { parent: String },
    /// The session named for recovery works in another directory.
    RecoveryDirectoryDiffers,
    /// An earlier fork request has no known outcome.
    ForkOutcomeUnknown,
    /// Several panes display this session.
    MultiplePanes { session: String },
    /// An earlier pane launch has no known outcome.
    LaunchOutcomeUnknown { session: String },
    /// Opening the side pane failed.
    LaunchFailed { session: String, cause: Box<SidebarError> },
    /// The side pane did not attach to the fork.
    NotAttached { pane: String, session: String, cause: Box<SidebarError> },
    /// The side pane closed while OpenCode was starting.
    SideClosed,
    /// The side pane did not attach before the deadline.
    AttachTimeout { pane: String, session: String },
    /// A command produced more output than is accepted.
    OutputTooLarge { program: String },
    /// A command did not finish within `timeout_ms` milliseconds.
    CommandTimedOut { program: String, timeout_ms: u64 },
    /// A command exited unsuccessfully with exit status `status`; its error output and its
    /// output follow.
    CommandFailed { program: String, status: String, stderr: String, stdout: String },
    /// A command's output is not JSON; `reason` says why.
    InvalidJson { program: String, reason: String },
    /// A command answered with an `error` field, shown as `error`.
    ReportedError { program: String, error: String },
    /// Another invocation held the store's lock for the whole wait.
    StoreBusy,
    /// An operation outside the library failed; the text says why.
    External { reason: String },
    /// An event arrived that the workflow was not waiting for.
    UnexpectedEvent,
}

pub const TEXT_UNKNOWN_COMMAND: &'static str = "unknown command; use --help";
pub const TEXT_UNEXPECTED_ARGUMENT: &'static str = "unexpected argument; use --help";
pub const TEXT_MISSING_OPTION_VALUE: &'static str = "option requires a value";
pub const TEXT_NON_UTF8_ID: &'static str = "IDs must be UTF-8";
pub const TEXT_UNKNOWN_OPTION: &'static str = "unknown option ";
pub const TEXT_USE_HELP: &'static str = "; use --help";
pub const TEXT_NOT_IN_HERDR: &'static str = "run inside Herdr";
pub const TEXT_MISSING_SOURCE_PANE: &'static str = "missing source pane; use --pane PANE_ID";
pub const TEXT_INVALID_TIMEOUT: &'static str = "invalid sidebar timeout (HERDR_SIDEBAR_TIMEOUT_MS or legacy OPENCODE_SIDEBAR_TIMEOUT_MS)";
pub const TEXT_ENV_MISSING: &'static str = "environment variable not found";
pub const TEXT_ENV_NOT_UNICODE: &'static str = "environment variable was not valid unicode: ";
pub const TEXT_INVALID_CONTEXT: &'static str = "invalid Herdr invocation context";
pub const TEXT_NUMBER_EMPTY: &'static str = "cannot parse integer from empty string";
pub const TEXT_NUMBER_INVALID_DIGIT: &'static str = "invalid digit found in string";
pub const TEXT_NUMBER_TOO_LARGE: &'static str = "number too large to fit in target type";
pub const TEXT_ZERO_TIMEOUT: &'static str = "timeout must be greater than zero";
pub const TEXT_MISSING_SOCKET: &'static str = "HERDR_SOCKET_PATH is missing";
pub const TEXT_MISSING_STATE_DIR: &'static str = "invoke the Herdr action, or set HERDR_PLUGIN_STATE_DIR for direct use";
pub const TEXT_INVALID_SESSION_ID: &'static str = "invalid OpenCode session ID";
pub const TEXT_NO_ARGV: &'static str = "OpenCode process has no argv";
pub const TEXT_STANDALONE: &'static str = "standalone OpenCode servers are not supported; use the shared service or --server";
pub const TEXT_MISSING_SERVER_URL: &'static str = "--server has no URL";
pub const TEXT_NO_PROCESS_CWD: &'static str = "relative executable path has no process cwd";
pub const TEXT_PROCESS_NOT_FOUND: &'static str = "could not identify the source OpenCode process and server";
pub const TEXT_DIFFERENT_SESSION: &'static str = "OpenCode returned a different session";
pub const TEXT_NOT_A_FORK: &'static str = "OpenCode did not return a fork of ";
pub const TEXT_EMPTY_CONVERSATION: &'static str = "this conversation is empty; OpenCode needs saved history before it can be forked";
pub const TEXT_UNSUPPORTED_VERSION: &'static str = "unsupported sidebar state version ";
pub const TEXT_SOURCE_PANE_GONE: &'static str = "originating pane no longer exists";
pub const TEXT_NOTHING_TO_RECOVER: &'static str = "no interrupted operation to recover";
pub const TEXT_NOT_OPENCODE: &'static str = "source pane is not running OpenCode";
pub const TEXT_NO_SESSION_ID: &'static str = "Herdr has no OpenCode session ID for this pane";
pub const TEXT_FORK_UNCONFIRMED: &'static str = "fork outcome could not be confirmed; it will not be repeated automatically. Inspect OpenCode sessions and use open --recover-session ID once the request has settled";
pub const TEXT_FORK_EXISTS: &'static str = "fork ";
pub const TEXT_FORK_NOT_SAVED: &'static str = " exists; recover it with open --recover-session ";
pub const TEXT_CONFLICTING_RECOVERY: &'static str = "choose either --retry-fork or --recover-session";
pub const TEXT_FORK_ALREADY_RECORDED: &'static str = "fork ID is already recorded; retry the normal action";
pub const TEXT_RETRIED_FORK_UNCONFIRMED: &'static str = "fork outcome could not be confirmed; inspect OpenCode before retrying";
pub const TEXT_RECOVERY_NOT_A_FORK: &'static str = "recovery session is not a fork of ";
pub const TEXT_RECOVERY_DIRECTORY: &'static str = "recovery session uses a different working directory";
pub const TEXT_FORK_OUTCOME_UNKNOWN: &'static str = "previous fork outcome is unknown; inspect OpenCode sessions and use open --recover-session ID, or --retry-fork after verifying no fork was created. No new fork was created";
pub const TEXT_MULTIPLE_PANES: &'static str = "multiple panes display ";
pub const TEXT_CLOSE_EXTRA: &'static str = "; close the extra attachment before retrying";
pub const TEXT_LAUNCH_UNKNOWN: &'static str = "previous pane launch outcome is unknown. Let Herdr settle, then retry; if no pane appeared, use open --retry-launch to reopen the saved fork ";
pub const TEXT_LAUNCH_SAVED: &'static str = " is saved; retry the action to reconcile its pane, or use open --retry-launch after checking the layout";
pub const TEXT_PANE: &'static str = "pane ";
pub const TEXT_NOT_ATTACHED: &'static str = " did not attach to ";
pub const TEXT_RETRY_STARTUP: &'static str = "; retry once startup settles";
pub const TEXT_SIDE_CLOSED: &'static str = "side pane closed before OpenCode attached; retry to reopen the saved fork";
pub const TEXT_ATTACH_TIMEOUT: &'static str = " in time; retry the action after startup";
pub const TEXT_OUTPUT_TOO_LARGE: &'static str = " output exceeded 4 MiB";
pub const TEXT_TIMED_OUT: &'static str = " timed out after ";
pub const TEXT_MILLISECONDS: &'static str = " ms";
pub const TEXT_FAILED: &'static str = " failed (";
pub const TEXT_FAILED_CLOSE: &'static str = "): ";
pub const TEXT_INVALID_JSON: &'static str = "invalid JSON from ";
pub const TEXT_STORE_BUSY: &'static str = "another sidebar action is still running; retry shortly";
pub const TEXT_UNEXPECTED_EVENT: &'static str = "the workflow received an event it was not waiting for";
pub const TEXT_CAUSE: &'static str = ": ";

/// The text shown for an error whose whole text is fixed.
pub open spec fn fixed_text(e: SidebarError) -> Option<Seq<char>> {
    match e {
        SidebarError::UnknownCommand => Some(TEXT_UNKNOWN_COMMAND@),
        SidebarError::UnexpectedArgument => Some(TEXT_UNEXPECTED_ARGUMENT@),
        SidebarError::MissingOptionValue => Some(TEXT_MISSING_OPTION_VALUE@),
        SidebarError::NonUtf8Id => Some(TEXT_NON_UTF8_ID@),
        SidebarError::NotInHerdr => Some(TEXT_NOT_IN_HERDR@),
        SidebarError::EnvMissing => Some(TEXT_ENV_MISSING@),
        SidebarError::NumberEmpty => Some(TEXT_NUMBER_EMPTY@),
        SidebarError::NumberInvalidDigit => Some(TEXT_NUMBER_INVALID_DIGIT@),
        SidebarError::NumberTooLarge => Some(TEXT_NUMBER_TOO_LARGE@),
        SidebarError::ZeroTimeout => Some(TEXT_ZERO_TIMEOUT@),
        SidebarError::MissingStateDir => Some(TEXT_MISSING_STATE_DIR@),
        SidebarError::InvalidSessionId => Some(TEXT_INVALID_SESSION_ID@),
        SidebarError::NoArgv => Some(TEXT_NO_ARGV@),
        SidebarError::StandaloneServer => Some(TEXT_STANDALONE@),
        SidebarError::MissingServerUrl => Some(TEXT_MISSING_SERVER_URL@),
        SidebarError::NoProcessCwd => Some(TEXT_NO_PROCESS_CWD@),
        SidebarError::ProcessNotFound => Some(TEXT_PROCESS_NOT_FOUND@),
        SidebarError::DifferentSession => Some(TEXT_DIFFERENT_SESSION@),
        SidebarError::EmptyConversation => Some(TEXT_EMPTY_CONVERSATION@),
        SidebarError::SourcePaneGone => Some(TEXT_SOURCE_PANE_GONE@),
        SidebarError::NothingToRecover => Some(TEXT_NOTHING_TO_RECOVER@),
        SidebarError::NotOpenCode => Some(TEXT_NOT_OPENCODE@),
        SidebarError::NoSessionId => Some(TEXT_NO_SESSION_ID@),
        SidebarError::ConflictingRecovery => Some(TEXT_CONFLICTING_RECOVERY@),
        SidebarError::ForkAlreadyRecorded => Some(TEXT_FORK_ALREADY_RECORDED@),
        SidebarError::RecoveryDirectoryDiffers => Some(TEXT_RECOVERY_DIRECTORY@),
        SidebarError::ForkOutcomeUnknown => Some(TEXT_FORK_OUTCOME_UNKNOWN@),
        SidebarError::SideClosed => Some(TEXT_SIDE_CLOSED@),
        SidebarError::UnexpectedEvent => Some(TEXT_UNEXPECTED_EVENT@),
        SidebarError::StoreBusy => Some(TEXT_STORE_BUSY@),
        _ => None,
    }
}

/// The text shown for an error: a fixed sentence, a sentence naming the session or pane
/// concerned, or a context sentence followed by `": "` and the text of its cause.
pub open spec fn describe(e: SidebarError) -> Seq<char>
    decreases e,
{
    match e {
        SidebarError::NotAFork { parent } => TEXT_NOT_A_FORK@ + parent@,
        SidebarError::EnvNotUnicode { shown } => TEXT_ENV_NOT_UNICODE@ + shown@,
        SidebarError::UnknownOption { option } => TEXT_UNKNOWN_OPTION@ + option@ + TEXT_USE_HELP@,
        SidebarError::InvalidContext { reason } => TEXT_INVALID_CONTEXT@ + TEXT_CAUSE@ + reason@,
        SidebarError::MissingSourcePane { cause } => TEXT_MISSING_SOURCE_PANE@ + TEXT_CAUSE@ + describe(*cause),
        SidebarError::InvalidTimeout { cause } => TEXT_INVALID_TIMEOUT@ + TEXT_CAUSE@ + describe(*cause),
        SidebarError::MissingSocket { cause } => TEXT_MISSING_SOCKET@ + TEXT_CAUSE@ + describe(*cause),
        SidebarError::UnsupportedVersion { version } => TEXT_UNSUPPORTED_VERSION@ + decimal(version as nat),
        SidebarError::ForkUnconfirmed { cause } => TEXT_FORK_UNCONFIRMED@ + TEXT_CAUSE@ + describe(*cause),
        SidebarError::ForkNotSaved { fork, cause } => TEXT_FORK_EXISTS@ + fork@ + TEXT_FORK_NOT_SAVED@
            + fork@ + TEXT_CAUSE@ + describe(*cause),
        SidebarError::RetriedForkUnconfirmed { cause } => TEXT_RETRIED_FORK_UNCONFIRMED@ + TEXT_CAUSE@
            + describe(*cause),
        SidebarError::RecoveryNotAFork { parent } => TEXT_RECOVERY_NOT_A_FORK@ + parent@,
        SidebarError::MultiplePanes { session } => TEXT_MULTIPLE_PANES@ + session@ + TEXT_CLOSE_EXTRA@,
        SidebarError::LaunchOutcomeUnknown { session } => TEXT_LAUNCH_UNKNOWN@ + session@,
        SidebarError::LaunchFailed { session, cause } => TEXT_FORK_EXISTS@ + session@ + TEXT_LAUNCH_SAVED@
            + TEXT_CAUSE@ + describe(*cause),
        SidebarError::NotAttached { pane, session, cause } => TEXT_PANE@ + pane@ + TEXT_NOT_ATTACHED@
            + session@ + TEXT_RETRY_STARTUP@ + TEXT_CAUSE@ + describe(*cause),
        SidebarError::AttachTimeout { pane, session } => TEXT_PANE@ + pane@ + TEXT_NOT_ATTACHED@ + session@
            + TEXT_ATTACH_TIMEOUT@,
        SidebarError::OutputTooLarge { program } => program@ + TEXT_OUTPUT_TOO_LARGE@,
        SidebarError::CommandTimedOut { program, timeout_ms } => program@ + TEXT_TIMED_OUT@ + decimal(
            timeout_ms as nat,
        ) + TEXT_MILLISECONDS@,
        SidebarError::CommandFailed { program, status, stderr, stdout } => program@ + TEXT_FAILED@ + status@
            + TEXT_FAILED_CLOSE@ + stderr@ + stdout@,
        SidebarError::InvalidJson { program, reason } => TEXT_INVALID_JSON@ + program@ + TEXT_CAUSE@ + reason@,
        SidebarError::ReportedError { program, error } => program@ + TEXT_CAUSE@ + error@,
        SidebarError::External { reason } => reason@,
        _ => fixed_text(e).unwrap(),
    }
}

impl SidebarError {
    /// The text shown to the user for this error.
    pub fn message(&self) -> (r: String)
        ensures
            r@ == describe(*self),
        decreases self,
    {
        match self {
            SidebarError::UnknownCommand => String::from_str(TEXT_UNKNOWN_COMMAND),
            SidebarError::UnexpectedArgument => String::from_str(TEXT_UNEXPECTED_ARGUMENT),
            SidebarError::MissingOptionValue => String::from_str(TEXT_MISSING_OPTION_VALUE),
            SidebarError::NonUtf8Id => String::from_str(TEXT_NON_UTF8_ID),
            SidebarError::UnknownOption { option } => joined(TEXT_UNKNOWN_OPTION, option.as_str()).concat(
                TEXT_USE_HELP,
            ),
            SidebarError::NotInHerdr => String::from_str(TEXT_NOT_IN_HERDR),
            SidebarError::EnvMissing => String::from_str(TEXT_ENV_MISSING),
            SidebarError::EnvNotUnicode { shown } => joined(TEXT_ENV_NOT_UNICODE, shown.as_str()),
            SidebarError::InvalidContext { reason } => joined(TEXT_INVALID_CONTEXT, TEXT_CAUSE).concat(
                reason.as_str(),
            ),
            SidebarError::MissingSourcePane { cause } => {
                let inner = cause.message();
                joined(TEXT_MISSING_SOURCE_PANE, TEXT_CAUSE).concat(inner.as_str())
            },
            SidebarError::NumberEmpty => String::from_str(TEXT_NUMBER_EMPTY),
            SidebarError::NumberInvalidDigit => String::from_str(TEXT_NUMBER_INVALID_DIGIT),
            SidebarError::NumberTooLarge => String::from_str(TEXT_NUMBER_TOO_LARGE),
            SidebarError::InvalidTimeout { cause } => {
                let inner = cause.message();
                joined(TEXT_INVALID_TIMEOUT, TEXT_CAUSE).concat(inner.as_str())
            },
            SidebarError::ZeroTimeout => String::from_str(TEXT_ZERO_TIMEOUT),
            SidebarError::MissingSocket { cause } => {
                let inner = cause.message();
                joined(TEXT_MISSING_SOCKET, TEXT_CAUSE).concat(inner.as_str())
            },
            SidebarError::MissingStateDir => String::from_str(TEXT_MISSING_STATE_DIR),
            SidebarError::InvalidSessionId => String::from_str(TEXT_INVALID_SESSION_ID),
            SidebarError::NoArgv => String::from_str(TEXT_NO_ARGV),
            SidebarError::StandaloneServer => String::from_str(TEXT_STANDALONE),
            SidebarError::MissingServerUrl => String::from_str(TEXT_MISSING_SERVER_URL),
            SidebarError::NoProcessCwd => String::from_str(TEXT_NO_PROCESS_CWD),
            SidebarError::ProcessNotFound => String::from_str(TEXT_PROCESS_NOT_FOUND),
            SidebarError::DifferentSession => String::from_str(TEXT_DIFFERENT_SESSION),
            SidebarError::NotAFork { parent } => joined(TEXT_NOT_A_FORK, parent.as_str()),
            SidebarError::EmptyConversation => String::from_str(TEXT_EMPTY_CONVERSATION),
            SidebarError::UnsupportedVersion { version } => joined(
                TEXT_UNSUPPORTED_VERSION,
                decimal_text(*version as u64).as_str(),
            ),
            SidebarError::SourcePaneGone => String::from_str(TEXT_SOURCE_PANE_GONE),
            SidebarError::NothingToRecover => String::from_str(TEXT_NOTHING_TO_RECOVER),
            SidebarError::NotOpenCode => String::from_str(TEXT_NOT_OPENCODE),
            SidebarError::NoSessionId => String::from_str(TEXT_NO_SESSION_ID),
            SidebarError::ForkUnconfirmed { cause } => {
                let inner = cause.message();
                joined(TEXT_FORK_UNCONFIRMED, TEXT_CAUSE).concat(inner.as_str())
            },
            SidebarError::ForkNotSaved { fork, cause } => {
                let inner = cause.message();
                joined(TEXT_FORK_EXISTS, fork.as_str()).concat(TEXT_FORK_NOT_SAVED).concat(
                    fork.as_str(),
                ).concat(TEXT_CAUSE).concat(inner.as_str())
            },
            SidebarError::ConflictingRecovery => String::from_str(TEXT_CONFLICTING_RECOVERY),
            SidebarError::ForkAlreadyRecorded => String::from_str(TEXT_FORK_ALREADY_RECORDED),
            SidebarError::RetriedForkUnconfirmed { cause } => {
                let inner = cause.message();
                joined(TEXT_RETRIED_FORK_UNCONFIRMED, TEXT_CAUSE).concat(inner.as_str())
            },
            SidebarError::RecoveryNotAFork { parent } => joined(
                TEXT_RECOVERY_NOT_A_FORK,
                parent.as_str(),
            ),
            SidebarError::RecoveryDirectoryDiffers => String::from_str(TEXT_RECOVERY_DIRECTORY),
            SidebarError::ForkOutcomeUnknown => String::from_str(TEXT_FORK_OUTCOME_UNKNOWN),
            SidebarError::MultiplePanes { session } => joined(
                TEXT_MULTIPLE_PANES,
                session.as_str(),
            ).concat(TEXT_CLOSE_EXTRA),
            SidebarError::LaunchOutcomeUnknown { session } => joined(
                TEXT_LAUNCH_UNKNOWN,
                session.as_str(),
            ),
            SidebarError::LaunchFailed { session, cause } => {
                let inner = cause.message();
                joined(TEXT_FORK_EXISTS, session.as_str()).concat(TEXT_LAUNCH_SAVED).concat(
                    TEXT_CAUSE,
                ).concat(inner.as_str())
            },
            SidebarError::NotAttached { pane, session, cause } => {
                let inner = cause.message();
                joined(TEXT_PANE, pane.as_str()).concat(TEXT_NOT_ATTACHED).concat(
                    session.as_str(),
                ).concat(TEXT_RETRY_STARTUP).concat(TEXT_CAUSE).concat(inner.as_str())
            },
            SidebarError::SideClosed => String::from_str(TEXT_SIDE_CLOSED),
            SidebarError::AttachTimeout { pane, session } => joined(TEXT_PANE, pane.as_str()).concat(
                TEXT_NOT_ATTACHED,
            ).concat(session.as_str()).concat(TEXT_ATTACH_TIMEOUT),
            SidebarError::OutputTooLarge { program } => joined(
                program.as_str(),
                TEXT_OUTPUT_TOO_LARGE,
            ),
            SidebarError::CommandTimedOut { program, timeout_ms } => joined(
                program.as_str(),
                TEXT_TIMED_OUT,
            ).concat(decimal_text(*timeout_ms).as_str()).concat(TEXT_MILLISECONDS),
            SidebarError::CommandFailed { program, status, stderr, stdout } => joined(
                program.as_str(),
                TEXT_FAILED,
            ).concat(status.as_str()).concat(TEXT_FAILED_CLOSE).concat(stderr.as_str()).concat(
                stdout.as_str(),
            ),
            SidebarError::InvalidJson { program, reason } => joined(TEXT_INVALID_JSON, program.as_str()).concat(
                TEXT_CAUSE,
            ).concat(reason.as_str()),
            SidebarError::ReportedError { program, error } => joined(program.as_str(), TEXT_CAUSE).concat(
                error.as_str(),
            ),
            SidebarError::StoreBusy => String::from_str(TEXT_STORE_BUSY),
            SidebarError::External { reason } => String::from_str(reason.as_str()),
            SidebarError::UnexpectedEvent => String::from_str(TEXT_UNEXPECTED_EVENT),
        }
    }
}

} // verus!
