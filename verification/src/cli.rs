//! The command line and the configuration taken from the environment.
use vstd::prelude::*;
use crate::error::SidebarError;
use crate::text::{chars_of, opt_text, same_text};
use vstd::string::StrSliceExecFns;

verus! {

/// The options of the `open` command.
#[derive(Debug)]
pub struct Options {
    /// The pane to fork from, instead of the one Herdr reports.
    pub pane: Option<String>,
    /// A session known to be the fork of an interrupted operation.
    pub recover_session: Option<String>,
    /// Open the side pane again although an earlier launch has no known outcome.
    pub retry_launch: bool,
    /// Fork again after checking that an earlier fork request created nothing.
    pub retry_fork: bool,
}

impl Default for Options {
    fn default() -> (r: Self)
        ensures
            r.pane is None,
            r.recover_session is None,
            !r.retry_launch,
            !r.retry_fork,
    {
        Options { pane: None, recover_session: None, retry_launch: false, retry_fork: false }
    }
}


/// What the command line asks for.
#[derive(Debug)]
pub enum Cli {
    Help,
    Version,
    Attach,
    Open(Options),
}

pub const CMD_HELP: &'static str = "--help";
pub const CMD_HELP_SHORT: &'static str = "-h";
pub const CMD_VERSION: &'static str = "--version";
pub const CMD_VERSION_SHORT: &'static str = "-V";
pub const CMD_ATTACH: &'static str = "attach";
pub const CMD_OPEN: &'static str = "open";
pub const OPT_PANE: &'static str = "--pane";
pub const OPT_RECOVER: &'static str = "--recover-session";
pub const OPT_RETRY_LAUNCH: &'static str = "--retry-launch";
pub const OPT_RETRY_FORK: &'static str = "--retry-fork";

/// The options of `open`, as character sequences.
pub struct OptionsModel {
    pub pane: Option<Seq<char>>,
    pub recover_session: Option<Seq<char>>,
    pub retry_launch: bool,
    pub retry_fork: bool,
}

/// What the command line asks for, with the options as character sequences.
pub enum Parsed {
    Help,
    Version,
    Attach,
    Open(OptionsModel),
}

pub open spec fn options_model(o: Options) -> OptionsModel {
    OptionsModel {
        pane: opt_text(o.pane),
        recover_session: opt_text(o.recover_session),
        retry_launch: o.retry_launch,
        retry_fork: o.retry_fork,
    }
}

pub open spec fn cli_model(c: Cli) -> Parsed {
    match c {
        Cli::Help => Parsed::Help,
        Cli::Version => Parsed::Version,
        Cli::Attach => Parsed::Attach,
        Cli::Open(o) => Parsed::Open(options_model(o)),
    }
}

/// Whether the argument asks for help.
pub open spec fn is_help(a: Seq<char>) -> bool {
    a == CMD_HELP@ || a == CMD_HELP_SHORT@
}

/// An option value: not empty and not looking like an option.
pub open spec fn usable_value(v: Seq<char>) -> bool {
    v.len() > 0 && v[0] != '-'
}

/// A command-line argument.
#[derive(Debug)]
pub enum Arg {
    /// A valid UTF-8 argument.
    Text(String),
    /// An argument that is not valid UTF-8; `shown` is how it is displayed.
    NotUnicode { shown: String },
}

/// The text of an argument, if it is valid UTF-8.
pub open spec fn arg_text(a: Arg) -> Option<Seq<char>> {
    match a {
        Arg::Text(s) => Some(s@),
        Arg::NotUnicode { .. } => None,
    }
}

/// How an argument is displayed.
pub open spec fn arg_shown(a: Arg) -> String {
    match a {
        Arg::Text(s) => s,
        Arg::NotUnicode { shown } => shown,
    }
}

/// The options of `open` given by the arguments from position `i` on, when `o` was given
/// before them.  Help asked for among the options wins over everything after it.
pub open spec fn scan_options(args: Seq<Arg>, i: int, o: OptionsModel) -> Result<Parsed, SidebarError>
    decreases args.len() - i,
{
    if i < 0 || i >= args.len() {
        Ok(Parsed::Open(o))
    } else {
        match arg_text(args[i]) {
            None => Err(SidebarError::UnknownOption { option: arg_shown(args[i]) }),
            Some(f) => if f == OPT_PANE@ || f == OPT_RECOVER@ {
                if i + 1 >= args.len() {
                    Err(SidebarError::MissingOptionValue)
                } else {
                    match arg_text(args[i + 1]) {
                        None => Err(SidebarError::NonUtf8Id),
                        Some(v) => if !usable_value(v) {
                            Err(SidebarError::MissingOptionValue)
                        } else if f == OPT_PANE@ {
                            scan_options(args, i + 2, OptionsModel { pane: Some(v), ..o })
                        } else {
                            scan_options(args, i + 2, OptionsModel { recover_session: Some(v), ..o })
                        },
                    }
                }
            } else if f == OPT_RETRY_LAUNCH@ {
                scan_options(args, i + 1, OptionsModel { retry_launch: true, ..o })
            } else if f == OPT_RETRY_FORK@ {
                scan_options(args, i + 1, OptionsModel { retry_fork: true, ..o })
            } else if is_help(f) {
                Ok(Parsed::Help)
            } else {
                Err(SidebarError::UnknownOption { option: arg_shown(args[i]) })
            },
        }
    }
}

/// What the arguments after the program name ask for: help when there are none; help,
/// version or attach with no further argument; or `open` with its options.
pub open spec fn parse_spec(args: Seq<Arg>) -> Result<Parsed, SidebarError> {
    if args.len() == 0 {
        Ok(Parsed::Help)
    } else {
        match arg_text(args[0]) {
            None => Err(SidebarError::UnknownCommand),
            Some(c) => {
                let simple = if is_help(c) {
                    Some(Parsed::Help)
                } else if c == CMD_VERSION@ || c == CMD_VERSION_SHORT@ {
                    Some(Parsed::Version)
                } else if c == CMD_ATTACH@ {
                    Some(Parsed::Attach)
                } else {
                    None
                };
                match simple {
                    Some(p) => if args.len() > 1 {
                        Err(SidebarError::UnexpectedArgument)
                    } else {
                        Ok(p)
                    },
                    None => if c == CMD_OPEN@ {
                        scan_options(
                            args,
                            1,
                            OptionsModel { pane: None, recover_session: None, retry_launch: false, retry_fork: false },
                        )
                    } else {
                        Err(SidebarError::UnknownCommand)
                    },
                }
            },
        }
    }
}

/// Whether some argument from position `i` on is exactly `word`.
pub open spec fn given_from(args: Seq<Arg>, i: int, word: Seq<char>) -> bool {
    exists|j: int| i <= j < args.len() && #[trigger] arg_text(args[j]) == Some(word)
}

/// One step of [`given_from`].
proof fn lemma_given_from_step(args: Seq<Arg>, i: int, word: Seq<char>)
    requires
        0 <= i < args.len(),
    ensures
        given_from(args, i, word) <==> (arg_text(args[i]) == Some(word) || given_from(args, i + 1, word)),
{
    if given_from(args, i, word) {
        let j = choose|j: int| i <= j < args.len() && #[trigger] arg_text(args[j]) == Some(word);
        if j > i {
            assert(given_from(args, i + 1, word));
        }
    }
    if given_from(args, i + 1, word) {
        let j = choose|j: int| i + 1 <= j < args.len() && #[trigger] arg_text(args[j]) == Some(word);
        assert(given_from(args, i, word));
    }
}

/// The options read from position `i` on set each retry flag exactly when it was set before
/// or the flag's own word appears among the arguments read.
proof fn lemma_scan_flags(args: Seq<Arg>, i: int, o: OptionsModel)
    requires
        0 <= i,
    ensures
        scan_options(args, i, o) matches Ok(Parsed::Open(o2)) ==> {
            &&& o2.retry_launch == (o.retry_launch || given_from(args, i, "--retry-launch"@))
            &&& o2.retry_fork == (o.retry_fork || given_from(args, i, "--retry-fork"@))
        },
    decreases args.len() - i,
{
    reveal_strlit("--retry-launch");
    reveal_strlit("--retry-fork");
    reveal_strlit("--pane");
    reveal_strlit("--recover-session");
    let rl = "--retry-launch"@;
    let rf = "--retry-fork"@;
    if i >= args.len() {
        assert(!given_from(args, i, rl));
        assert(!given_from(args, i, rf));
    } else {
        lemma_given_from_step(args, i, rl);
        lemma_given_from_step(args, i, rf);
        match arg_text(args[i]) {
            None => {},
            Some(f) => {
                if f == OPT_PANE@ || f == OPT_RECOVER@ {
                    assert(f[2] != rl[2] || f.len() != rl.len());
                    assert(f[2] != rf[2] || f.len() != rf.len());
                    if i + 1 < args.len() {
                        if let Some(v) = arg_text(args[i + 1]) {
                            if usable_value(v) {
                                lemma_given_from_step(args, i + 1, rl);
                                lemma_given_from_step(args, i + 1, rf);
                                assert(v[0] != rl[0]);
                                assert(v[0] != rf[0]);
                                if f == OPT_PANE@ {
                                    lemma_scan_flags(args, i + 2, OptionsModel { pane: Some(v), ..o });
                                } else {
                                    lemma_scan_flags(args, i + 2, OptionsModel { recover_session: Some(v), ..o });
                                }
                            }
                        }
                    }
                } else if f == OPT_RETRY_LAUNCH@ {
                    assert(rl[8] != rf[8]);
                    lemma_scan_flags(args, i + 1, OptionsModel { retry_launch: true, ..o });
                } else if f == OPT_RETRY_FORK@ {
                    assert(rl[8] != rf[8]);
                    lemma_scan_flags(args, i + 1, OptionsModel { retry_fork: true, ..o });
                }
            },
        }
    }
}

/// `open` sets `--retry-launch` exactly when that flag is among its arguments, and
/// `--retry-fork` exactly when that one is: each flag sets the option it names and no other.
pub proof fn lemma_open_retry_flags(args: Seq<Arg>)
    ensures
        parse_spec(args) matches Ok(Parsed::Open(o)) ==> {
            &&& o.retry_launch == given_from(args, 1, "--retry-launch"@)
            &&& o.retry_fork == given_from(args, 1, "--retry-fork"@)
        },
{
    lemma_scan_flags(
        args,
        1,
        OptionsModel { pane: None, recover_session: None, retry_launch: false, retry_fork: false },
    );
}

/// Whether the argument holds exactly `word`.
fn is_word(a: &Arg, word: &str) -> (r: bool)
    ensures
        r == (arg_text(*a) == Some(word@)),
{
    match a {
        Arg::Text(s) => same_text(s.as_str(), word),
        Arg::NotUnicode { .. } => false,
    }
}

/// How the argument is displayed.
fn shown(a: &Arg) -> (r: String)
    ensures
        r == arg_shown(*a),
{
    match a {
        Arg::Text(s) => s.clone(),
        Arg::NotUnicode { shown } => shown.clone(),
    }
}

/// Reads the command line: the arguments after the program name.
pub fn parse(args: &Vec<Arg>) -> (r: Result<Cli, SidebarError>)
    ensures
        match r {
            Ok(c) => parse_spec(args@) == Ok::<Parsed, SidebarError>(cli_model(c)),
            Err(e) => parse_spec(args@) == Err::<Parsed, SidebarError>(e),
        },
{
    if args.len() == 0 {
        return Ok(Cli::Help);
    }
    let command = &args[0];
    if let Arg::NotUnicode { .. } = command {
        return Err(SidebarError::UnknownCommand);
    }
    let simple = if is_word(command, CMD_HELP) || is_word(command, CMD_HELP_SHORT) {
        Some(Cli::Help)
    } else if is_word(command, CMD_VERSION) || is_word(command, CMD_VERSION_SHORT) {
        Some(Cli::Version)
    } else if is_word(command, CMD_ATTACH) {
        Some(Cli::Attach)
    } else {
        None
    };
    match simple {
        Some(c) => {
            if args.len() > 1 {
                return Err(SidebarError::UnexpectedArgument);
            }
            return Ok(c);
        },
        None => {},
    }
    if !is_word(command, CMD_OPEN) {
        return Err(SidebarError::UnknownCommand);
    }
    let mut options = Options { pane: None, recover_session: None, retry_launch: false, retry_fork: false };
    let mut i: usize = 1;
    while i < args.len()
        invariant
            1 <= i <= args.len(),
            parse_spec(args@) == scan_options(args@, i as int, options_model(options)),
        decreases args.len() - i,
    {
        let flag = &args[i];
        if is_word(flag, OPT_PANE) || is_word(flag, OPT_RECOVER) {
            if i + 1 >= args.len() {
                return Err(SidebarError::MissingOptionValue);
            }
            let value = match &args[i + 1] {
                Arg::Text(v) => v,
                Arg::NotUnicode { .. } => {
                    return Err(SidebarError::NonUtf8Id);
                },
            };
            let usable = if value.as_str().unicode_len() == 0 {
                false
            } else {
                value.as_str().get_char(0) != '-'
            };
            if !usable {
                return Err(SidebarError::MissingOptionValue);
            }
            if is_word(flag, OPT_PANE) {
                options.pane = Some(value.clone());
            } else {
                options.recover_session = Some(value.clone());
            }
            i = i + 2;
        } else if is_word(flag, OPT_RETRY_LAUNCH) {
            options.retry_launch = true;
            i = i + 1;
        } else if is_word(flag, OPT_RETRY_FORK) {
            options.retry_fork = true;
            i = i + 1;
        } else if is_word(flag, CMD_HELP) || is_word(flag, CMD_HELP_SHORT) {
            return Ok(Cli::Help);
        } else {
            return Err(SidebarError::UnknownOption { option: shown(flag) });
        }
    }
    Ok(Cli::Open(options))
}

/// The value of a decimal digit character.
pub open spec fn digit_value(c: char) -> nat {
    (c as u32 - '0' as u32) as nat
}

/// Whether `c` is an ASCII decimal digit.
pub open spec fn is_digit(c: char) -> bool {
    '0' <= c && c <= '9'
}

/// The number that the digits of `s` from position `i` on give when `acc` was read before
/// them, checking each character before the value grows past 64 bits.
pub open spec fn read_digits(s: Seq<char>, i: int, acc: nat) -> Result<u64, SidebarError>
    decreases s.len() - i,
{
    if i < 0 || i >= s.len() {
        Ok(acc as u64)
    } else if !is_digit(s[i]) {
        Err(SidebarError::NumberInvalidDigit)
    } else if acc * 10 + digit_value(s[i]) > u64::MAX {
        Err(SidebarError::NumberTooLarge)
    } else {
        read_digits(s, i + 1, acc * 10 + digit_value(s[i]))
    }
}

/// The value of a decimal number as `u64::from_str` reads it: an optional `+` followed by
/// at least one digit.
pub open spec fn number_value(s: Seq<char>) -> Result<u64, SidebarError> {
    if s.len() == 0 {
        Err(SidebarError::NumberEmpty)
    } else if s[0] == '+' {
        if s.len() == 1 {
            Err(SidebarError::NumberInvalidDigit)
        } else {
            read_digits(s, 1, 0)
        }
    } else if s[0] == '-' && s.len() == 1 {
        Err(SidebarError::NumberInvalidDigit)
    } else {
        read_digits(s, 0, 0)
    }
}

/// Reads a decimal number of milliseconds.
pub fn parse_number(text: &str) -> (r: Result<u64, SidebarError>)
    ensures
        r == number_value(text@),
{
    let cs = chars_of(text);
    if cs.len() == 0 {
        return Err(SidebarError::NumberEmpty);
    }
    let mut i: usize = 0;
    if cs[0] == '+' {
        if cs.len() == 1 {
            return Err(SidebarError::NumberInvalidDigit);
        }
        i = 1;
    } else if cs[0] == '-' && cs.len() == 1 {
        return Err(SidebarError::NumberInvalidDigit);
    }
    let mut acc: u64 = 0;
    while i < cs.len()
        invariant
            cs@ == text@,
            i <= cs.len(),
            number_value(text@) == read_digits(text@, i as int, acc as nat),
        decreases cs.len() - i,
    {
        let c = cs[i];
        if !('0' <= c && c <= '9') {
            return Err(SidebarError::NumberInvalidDigit);
        }
        let d = (c as u32 - '0' as u32) as u64;
        if acc > (u64::MAX - d) / 10 {
            assert(acc * 10 + d > u64::MAX) by (nonlinear_arith)
                requires
                    acc > (u64::MAX - d) / 10,
                    d <= 9,
            ;
            return Err(SidebarError::NumberTooLarge);
        }
        assert(acc * 10 + d <= u64::MAX) by (nonlinear_arith)
            requires
                acc <= (u64::MAX - d) / 10,
                d <= 9,
        ;
        acc = acc * 10 + d;
        i = i + 1;
    }
    Ok(acc)
}

/// The state of an environment variable.
#[derive(Debug)]
pub enum EnvValue {
    Missing,
    /// Set, but not valid unicode; `shown` is the value as it is displayed.
    NotUnicode { shown: String },
    Text(String),
}

/// What Herdr's invocation context says of the focused pane.
#[derive(Debug)]
pub enum ContextPane {
    /// No context is given, or it is not valid unicode.
    Unavailable,
    /// The context could not be read; the text says why.
    Invalid { reason: String },
    /// The pane that was focused when the action was invoked.
    Pane { id: String },
}

/// The environment of an invocation, as far as the configuration reads it.
#[derive(Debug)]
pub struct Environment {
    /// `HERDR_PLUGIN_CONTEXT_JSON`, read.
    pub context: ContextPane,
    /// `HERDR_PANE_ID`.
    pub pane_id: EnvValue,
    /// `HERDR_SIDEBAR_TIMEOUT_MS`.
    pub timeout: EnvValue,
    /// `OPENCODE_SIDEBAR_TIMEOUT_MS`, the older name of the timeout.
    pub legacy_timeout: EnvValue,
    /// `HERDR_SOCKET_PATH`.
    pub socket: EnvValue,
    /// Whether `HERDR_PLUGIN_STATE_DIR` is set.
    pub has_state_dir: bool,
}

/// The configuration of an invocation that the workflow needs.
#[derive(Debug)]
pub struct Config {
    pub socket: String,
    pub pane: String,
    pub timeout_ms: u64,
}

/// The timeout used when none is configured.
pub const DEFAULT_TIMEOUT_MS: u64 = 30000;

/// The error for a variable that cannot be read.
pub open spec fn env_problem(v: EnvValue) -> SidebarError {
    match v {
        EnvValue::NotUnicode { shown } => SidebarError::EnvNotUnicode { shown },
        _ => SidebarError::EnvMissing,
    }
}

/// The source pane: the one named on the command line, else the one in Herdr's invocation
/// context, else `HERDR_PANE_ID`.
pub open spec fn source_pane(options: Options, env: Environment) -> Result<Seq<char>, SidebarError> {
    match options.pane {
        Some(p) => Ok(p@),
        None => match env.context {
            ContextPane::Invalid { reason } => Err(SidebarError::InvalidContext { reason }),
            ContextPane::Pane { id } => Ok(id@),
            ContextPane::Unavailable => match env.pane_id {
                EnvValue::Text(p) => Ok(p@),
                v => Err(SidebarError::MissingSourcePane { cause: Box::new(env_problem(v)) }),
            },
        },
    }
}

/// The configured timeout, from the current name of the variable or, when that is not
/// set, the older one; 30 seconds when neither is set.
pub open spec fn timeout_value(env: Environment) -> Result<u64, SidebarError> {
    let chosen = match env.timeout {
        EnvValue::Missing => env.legacy_timeout,
        v => v,
    };
    match chosen {
        EnvValue::Missing => Ok(DEFAULT_TIMEOUT_MS),
        EnvValue::NotUnicode { shown } => Err(SidebarError::EnvNotUnicode { shown }),
        EnvValue::Text(t) => match number_value(t@) {
            Ok(n) => Ok(n),
            Err(e) => Err(SidebarError::InvalidTimeout { cause: Box::new(e) }),
        },
    }
}

/// The configuration that the options and the environment give, checked in this order:
/// source pane, timeout (which must not be zero), Herdr socket, state directory.
pub open spec fn config_spec(options: Options, env: Environment) -> Result<(Seq<char>, Seq<char>, u64), SidebarError> {
    match source_pane(options, env) {
        Err(e) => Err(e),
        Ok(pane) => match timeout_value(env) {
            Err(e) => Err(e),
            Ok(t) => if t == 0 {
                Err(SidebarError::ZeroTimeout)
            } else {
                match env.socket {
                    EnvValue::Text(s) => if env.has_state_dir {
                        Ok((s@, pane, t))
                    } else {
                        Err(SidebarError::MissingStateDir)
                    },
                    v => Err(SidebarError::MissingSocket { cause: Box::new(env_problem(v)) }),
                }
            },
        },
    }
}

/// A pane named with `--pane` is the source pane, whatever Herdr's invocation context and
/// `HERDR_PANE_ID` say: a configuration read then names that pane, and two environments that
/// differ only in the context and in `HERDR_PANE_ID` give the same result, which is a
/// configuration whenever the timeout, the socket and the state directory are usable.
pub proof fn lemma_pane_option_wins(options: Options, env: Environment, other: Environment)
    requires
        options.pane is Some,
        other.timeout == env.timeout,
        other.legacy_timeout == env.legacy_timeout,
        other.socket == env.socket,
        other.has_state_dir == env.has_state_dir,
    ensures
        config_spec(options, env) matches Ok((socket, pane, timeout)) ==> pane == options.pane->0@,
        config_spec(options, env) == config_spec(options, other),
        (config_spec(options, env) is Ok) <==> (timeout_value(env) matches Ok(t) && t > 0
            && env.socket is Text && env.has_state_dir),
{
}

fn env_error(v: &EnvValue) -> (r: SidebarError)
    ensures
        r == env_problem(*v),
{
    match v {
        EnvValue::NotUnicode { shown } => SidebarError::EnvNotUnicode { shown: shown.clone() },
        _ => SidebarError::EnvMissing,
    }
}

fn read_timeout(env: &Environment) -> (r: Result<u64, SidebarError>)
    ensures
        r == timeout_value(*env),
{
    let chosen = match &env.timeout {
        EnvValue::Missing => &env.legacy_timeout,
        v => v,
    };
    match chosen {
        EnvValue::Missing => Ok(DEFAULT_TIMEOUT_MS),
        EnvValue::NotUnicode { shown } => Err(SidebarError::EnvNotUnicode { shown: shown.clone() }),
        EnvValue::Text(t) => match parse_number(t.as_str()) {
            Ok(n) => Ok(n),
            Err(e) => Err(SidebarError::InvalidTimeout { cause: Box::new(e) }),
        },
    }
}

impl Config {
    /// The configuration that the options and the environment give.
    pub fn from_env(options: &Options, env: &Environment) -> (r: Result<Config, SidebarError>)
        ensures
            match r {
                Ok(c) => config_spec(*options, *env) == Ok::<(Seq<char>, Seq<char>, u64), SidebarError>(
                    (c.socket@, c.pane@, c.timeout_ms),
                ),
                Err(e) => config_spec(*options, *env) == Err::<(Seq<char>, Seq<char>, u64), SidebarError>(e),
            },
    {
        let pane = match &options.pane {
            Some(p) => p.clone(),
            None => match &env.context {
                ContextPane::Invalid { reason } => {
                    return Err(SidebarError::InvalidContext { reason: reason.clone() });
                },
                ContextPane::Pane { id } => id.clone(),
                ContextPane::Unavailable => match &env.pane_id {
                    EnvValue::Text(p) => p.clone(),
                    v => {
                        return Err(SidebarError::MissingSourcePane { cause: Box::new(env_error(v)) });
                    },
                },
            },
        };
        let timeout_ms = read_timeout(env)?;
        if timeout_ms == 0 {
            return Err(SidebarError::ZeroTimeout);
        }
        let socket = match &env.socket {
            EnvValue::Text(s) => s.clone(),
            v => {
                return Err(SidebarError::MissingSocket { cause: Box::new(env_error(v)) });
            },
        };
        if !env.has_state_dir {
            return Err(SidebarError::MissingStateDir);
        }
        Ok(Config { socket, pane, timeout_ms })
    }
}

/// The value `HERDR_ENV` has inside Herdr.
pub const HERDR_ENV_VALUE: &'static str = "1";

/// Refuses to run outside Herdr: `HERDR_ENV` must be `1`.
pub fn require_herdr(herdr_env: &EnvValue) -> (r: Result<(), SidebarError>)
    ensures
        (r is Ok) == (*herdr_env matches EnvValue::Text(v) && v@ == HERDR_ENV_VALUE@),
        r is Err ==> r == Err::<(), SidebarError>(SidebarError::NotInHerdr),
{
    match herdr_env {
        EnvValue::Text(v) => if same_text(v.as_str(), HERDR_ENV_VALUE) {
            Ok(())
        } else {
            Err(SidebarError::NotInHerdr)
        },
        _ => Err(SidebarError::NotInHerdr),
    }
}

} // verus!
