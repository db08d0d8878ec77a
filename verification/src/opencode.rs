//! OpenCode connections: how they are found, how requests to OpenCode are formed and
//! how its answers are checked.
use vstd::prelude::*;
use crate::error::SidebarError;
use crate::herdr::Foreground;
use crate::text::{chars_of, has_prefix, joined, opt_str, opt_text, owned, same_text, text_after, texts};

verus! {

/// Every session identifier starts with this prefix.
pub const SESSION_PREFIX: &'static str = "ses_";

/// Whether `c` may appear in a session identifier: an ASCII letter or digit, or `_`.
pub open spec fn is_id_char(c: char) -> bool {
    ('a' <= c && c <= 'z') || ('A' <= c && c <= 'Z') || ('0' <= c && c <= '9') || c == '_'
}

/// A well-formed OpenCode session identifier: `ses_` followed by at least one more
/// character, all of them ASCII letters, digits or `_`.
pub open spec fn is_session_id(id: Seq<char>) -> bool {
    &&& SESSION_PREFIX@.is_prefix_of(id)
    &&& id.len() > 4
    &&& forall|i: int| 0 <= i < id.len() ==> is_id_char(#[trigger] id[i])
}

/// A character may appear in a session identifier exactly when its code is that of an ASCII
/// digit, capital, small letter or `_`.
proof fn lemma_id_char_code(c: char)
    ensures
        is_id_char(c) <==> {
            let code = c as u32;
            (48 <= code <= 57) || (65 <= code <= 90) || (97 <= code <= 122) || code == 95
        },
{
}

/// A session identifier is exactly `ses_` followed by at least one character, where every
/// character is an ASCII digit (code 48 to 57), an ASCII capital (65 to 90), an ASCII small
/// letter (97 to 122) or `_`.
pub proof fn lemma_session_id_chars(id: Seq<char>)
    ensures
        is_session_id(id) <==> {
            &&& id.len() > 4
            &&& id[0] == 's' && id[1] == 'e' && id[2] == 's' && id[3] == '_'
            &&& forall|i: int|
                0 <= i < id.len() ==> {
                    let code = #[trigger] id[i] as u32;
                    (48 <= code <= 57) || (65 <= code <= 90) || (97 <= code <= 122) || code == 95
                }
        },
{
    reveal_strlit("ses_");
    assert(('0' as u32) == 48 && ('9' as u32) == 57 && ('A' as u32) == 65 && ('Z' as u32) == 90);
    assert(('a' as u32) == 97 && ('z' as u32) == 122 && ('_' as u32) == 95);
    assert(SESSION_PREFIX@ =~= seq!['s', 'e', 's', '_']);
    if id.len() > 4 && id[0] == 's' && id[1] == 'e' && id[2] == 's' && id[3] == '_' {
        assert(SESSION_PREFIX@ =~= id.subrange(0, 4));
    }
    if SESSION_PREFIX@.is_prefix_of(id) && id.len() > 4 {
        assert(id.subrange(0, 4) == SESSION_PREFIX@);
        assert(id[0] == id.subrange(0, 4)[0]);
        assert(id[1] == id.subrange(0, 4)[1]);
        assert(id[2] == id.subrange(0, 4)[2]);
        assert(id[3] == id.subrange(0, 4)[3]);
    }
    assert forall|i: int| 0 <= i < id.len() implies is_id_char(#[trigger] id[i]) == {
        let code = id[i] as u32;
        (48 <= code <= 57) || (65 <= code <= 90) || (97 <= code <= 122) || code == 95
    } by {
        lemma_id_char_code(id[i]);
    }
}

/// Accepts a well-formed OpenCode session identifier and refuses any other text.
pub fn validate_id(id: &str) -> (r: Result<(), SidebarError>)
    ensures
        r is Ok <==> is_session_id(id@),
        r is Err ==> r == Err::<(), SidebarError>(SidebarError::InvalidSessionId),
{
    proof {
        reveal_strlit("ses_");
    }
    if !has_prefix(id, SESSION_PREFIX) {
        return Err(SidebarError::InvalidSessionId);
    }
    let cs = chars_of(id);
    if cs.len() <= 4 {
        return Err(SidebarError::InvalidSessionId);
    }
    let mut i: usize = 0;
    while i < cs.len()
        invariant
            cs@ == id@,
            i <= cs.len(),
            forall|k: int| 0 <= k < i ==> is_id_char(#[trigger] cs@[k]),
        decreases cs.len() - i,
    {
        let c = cs[i];
        let ok = ('a' <= c && c <= 'z') || ('A' <= c && c <= 'Z') || ('0' <= c && c <= '9') || c
            == '_';
        if !ok {
            return Err(SidebarError::InvalidSessionId);
        }
        i = i + 1;
    }
    Ok(())
}

/// How to reach the OpenCode server of a conversation: the executable and, when one
/// was named, the server URL.
#[derive(Debug)]
pub struct Connection {
    pub binary: String,
    pub server: Option<String>,
}

impl Connection {
    /// A copy of this connection.
    pub fn copy(&self) -> (r: Connection)
        ensures
            r == *self,
    {
        Connection { binary: self.binary.clone(), server: crate::text::copy_opt(&self.server) }
    }
}

impl Clone for Connection {
    fn clone(&self) -> (r: Self)
        ensures
            r == *self,
    {
        self.copy()
    }
}

/// The prefix of the one-argument form of the server option.
pub const SERVER_EQ: &'static str = "--server=";

pub const ARG_END: &'static str = "--";
pub const ARG_STANDALONE: &'static str = "--standalone";
pub const ARG_PROMPT: &'static str = "--prompt";
pub const ARG_SESSION: &'static str = "--session";
pub const ARG_SESSION_SHORT: &'static str = "-s";
pub const ARG_SERVER: &'static str = "--server";

/// Whether an OpenCode option takes the next argument as its value, which may itself
/// look like an option.
pub open spec fn takes_literal_value(a: Seq<char>) -> bool {
    a == ARG_PROMPT@ || a == ARG_SESSION@ || a == ARG_SESSION_SHORT@
}

/// The server that OpenCode's arguments from position `i` on select, when `server` was
/// selected before them: a later `--server` wins, `--` ends the options, and a standalone
/// server is refused.
pub open spec fn scan_server(args: Seq<Seq<char>>, i: int, server: Option<Seq<char>>) -> Result<
    Option<Seq<char>>,
    SidebarError,
>
    decreases args.len() - i,
{
    if i < 0 || i >= args.len() {
        Ok(server)
    } else {
        let a = args[i];
        if a == ARG_END@ {
            Ok(server)
        } else if a == ARG_STANDALONE@ {
            Err(SidebarError::StandaloneServer)
        } else if takes_literal_value(a) {
            if i + 2 <= args.len() {
                scan_server(args, i + 2, server)
            } else {
                Ok(server)
            }
        } else if a == ARG_SERVER@ {
            if i + 2 <= args.len() {
                scan_server(args, i + 2, Some(args[i + 1]))
            } else {
                Err(SidebarError::MissingServerUrl)
            }
        } else if SERVER_EQ@.is_prefix_of(a) {
            scan_server(args, i + 1, Some(a.skip(SERVER_EQ@.len() as int)))
        } else {
            scan_server(args, i + 1, server)
        }
    }
}

/// A usable server URL: not empty and not looking like an option.
pub open spec fn usable_url(url: Seq<char>) -> bool {
    url.len() > 0 && url[0] != '-'
}

/// Whether a path segment names something: it is neither empty nor `.`.
pub open spec fn names_something(seg: Seq<char>) -> bool {
    seg.len() > 0 && seg != seq!['.']
}

/// Reading a path left to right: the number of segments that name something among the
/// segments closed by a `/`, the last of them, and the segment still open.
pub open spec fn path_scan(p: Seq<char>) -> (nat, Option<Seq<char>>, Seq<char>)
    decreases p.len(),
{
    if p.len() == 0 {
        (0, None, seq![])
    } else {
        let (n, last, cur) = path_scan(p.drop_last());
        if p.last() == '/' {
            if names_something(cur) {
                (n + 1, Some(cur), seq![])
            } else {
                (n, last, seq![])
            }
        } else {
            (n, last, cur.push(p.last()))
        }
    }
}

/// The number of segments of a path that name something.
pub open spec fn named_segments(p: Seq<char>) -> nat {
    let (n, last, cur) = path_scan(p);
    if names_something(cur) {
        n + 1
    } else {
        n
    }
}

/// The last segment of a path that names something.
pub open spec fn last_named(p: Seq<char>) -> Option<Seq<char>> {
    let (n, last, cur) = path_scan(p);
    if names_something(cur) {
        Some(cur)
    } else {
        last
    }
}

/// The final component of a path, as `Path::file_name` gives it: the last segment that
/// names something, unless that is `..`.
pub open spec fn file_name(p: Seq<char>) -> Option<Seq<char>> {
    match last_named(p) {
        Some(s) => if s == seq!['.', '.'] {
            None
        } else {
            Some(s)
        },
        None => None,
    }
}

/// Whether a path starts at the root.
pub open spec fn is_absolute(p: Seq<char>) -> bool {
    p.len() > 0 && p[0] == '/'
}

/// Whether a relative path starts with the current directory `.`.
pub open spec fn starts_at_current(p: Seq<char>) -> bool {
    p.len() > 0 && p[0] == '.' && (p.len() == 1 || p[1] == '/')
}

/// The number of components of a relative path.
pub open spec fn relative_components(p: Seq<char>) -> nat {
    (if starts_at_current(p) {
        1nat
    } else {
        0nat
    }) + named_segments(p)
}

/// `base` joined with the relative path `rel`, with one separator between them.
pub open spec fn joined_path(base: Seq<char>, rel: Seq<char>) -> Seq<char> {
    if base.len() == 0 || base.last() == '/' {
        base + rel
    } else {
        base + seq!['/'] + rel
    }
}

/// The connection that an OpenCode process's arguments describe.  A relative
/// executable path with more than one component is resolved against the process's
/// working directory.
pub open spec fn connection_from_argv(argv: Seq<Seq<char>>, cwd: Option<Seq<char>>) -> Result<
    (Seq<char>, Option<Seq<char>>),
    SidebarError,
> {
    if argv.len() == 0 {
        Err(SidebarError::NoArgv)
    } else {
        match scan_server(argv, 1, None) {
            Err(e) => Err(e),
            Ok(server) => if server matches Some(url) && !usable_url(url) {
                Err(SidebarError::MissingServerUrl)
            } else {
                let bin = argv[0];
                if !is_absolute(bin) && relative_components(bin) > 1 {
                    match cwd {
                        Some(dir) => Ok((joined_path(dir, bin), server)),
                        None => Err(SidebarError::NoProcessCwd),
                    }
                } else {
                    Ok((bin, server))
                }
            },
        }
    }
}

/// Reading the server refuses only a standalone server or a `--server` without a value.
pub proof fn lemma_scan_server_errors(args: Seq<Seq<char>>, i: int, server: Option<Seq<char>>)
    ensures
        scan_server(args, i, server) matches Err(e) ==> (e is StandaloneServer || e is MissingServerUrl),
    decreases args.len() - i,
{
    if 0 <= i < args.len() {
        let a = args[i];
        if i + 2 <= args.len() {
            lemma_scan_server_errors(args, i + 2, server);
            lemma_scan_server_errors(args, i + 2, Some(args[i + 1]));
        }
        if SERVER_EQ@.is_prefix_of(a) {
            lemma_scan_server_errors(args, i + 1, Some(a.skip(SERVER_EQ@.len() as int)));
        }
        lemma_scan_server_errors(args, i + 1, server);
    }
}

/// Finding a pane's connection refuses only for the reasons its process gives: no
/// OpenCode process, no arguments, a standalone server, a missing server URL or a
/// relative executable without a working directory.
pub proof fn lemma_discovered_errors(ps: Seq<Foreground>)
    ensures
        discovered(ps) matches Err(e) ==> (e is ProcessNotFound || e is NoArgv || e is StandaloneServer
            || e is MissingServerUrl || e is NoProcessCwd),
{
    if exists|k: int| is_first_opencode(ps, k) {
        let k = choose|k: int| is_first_opencode(ps, k);
        lemma_scan_server_errors(texts(ps[k].argv@), 1, None);
    }
}

/// The view of a connection: its executable and its server.
pub open spec fn connection_view(c: Connection) -> (Seq<char>, Option<Seq<char>>) {
    (c.binary@, opt_text(c.server))
}

/// Counts, for a path, the segments that name something and finds the last of them, as
/// `path_scan` describes.
fn scan_path(p: &str) -> (r: (usize, Option<String>, String))
    ensures
        ({
            let (n, last, cur) = path_scan(p@);
            r.0 == n && opt_text(r.1) == last && r.2@ == cur
        }),
{
    let cs = chars_of(p);
    let mut n: usize = 0;
    let mut last: Option<String> = None;
    let mut start: usize = 0;
    let mut i: usize = 0;
    while i < cs.len()
        invariant
            cs@ == p@,
            i <= cs.len(),
            start <= i,
            n <= i,
            ({
                let (sn, slast, scur) = path_scan(p@.take(i as int));
                sn == n && slast == opt_text(last) && scur == p@.subrange(start as int, i as int)
            }),
        decreases cs.len() - i,
    {
        assert(p@.take(i + 1).drop_last() =~= p@.take(i as int));
        if cs[i] == '/' {
            let seg = p.substring_char(start, i);
            let named = seg.unicode_len() > 0 && !same_text(seg, ".");
            proof {
                reveal_strlit(".");
                assert(seq!['.'] =~= "."@);
            }
            if named {
                last = Some(seg.to_owned());
                n = n + 1;
            }
            start = i + 1;
            assert(p@.subrange(start as int, i + 1) =~= seq![]);
        } else {
            assert(p@.subrange(start as int, i + 1) =~= p@.subrange(start as int, i as int).push(
                cs@[i as int],
            ));
        }
        i = i + 1;
    }
    assert(p@.take(cs.len() as int) =~= p@);
    let cur = p.substring_char(start, cs.len());
    (n, last, cur.to_owned())
}

/// Whether the path names the OpenCode executable: its final component is `opencode`.
pub fn names_opencode(path: &str) -> (r: bool)
    ensures
        r == (file_name(path@) == Some(crate::herdr::OPENCODE@)),
{
    let (n, last, cur) = scan_path(path);
    proof {
        reveal_strlit(".");
        reveal_strlit("..");
        reveal_strlit("opencode");
    }
    let final_seg: Option<String> = if cur.as_str().unicode_len() > 0 && !same_text(
        cur.as_str(),
        ".",
    ) {
        Some(cur)
    } else {
        last
    };
    assert(seq!['.'] =~= "."@);
    assert(seq!['.', '.'] =~= ".."@);
    match final_seg {
        Some(s) => {
            if same_text(s.as_str(), "..") {
                false
            } else {
                same_text(s.as_str(), crate::herdr::OPENCODE)
            }
        },
        None => false,
    }
}

impl Connection {
    /// The connection that an OpenCode process's arguments describe: its executable, and
    /// the server selected with `--server URL` or `--server=URL`.  Values of `--prompt`,
    /// `--session` and `-s` are skipped even when they look like options, `--` ends the
    /// options, and a standalone server is refused.  A relative executable path with more
    /// than one component is resolved against the process's working directory.
    pub fn from_argv(argv: &Vec<String>, cwd: Option<&str>) -> (r: Result<Connection, SidebarError>)
        ensures
            match r {
                Ok(c) => connection_from_argv(texts(argv@), opt_str(cwd)) == Ok::<
                    (Seq<char>, Option<Seq<char>>),
                    SidebarError,
                >(connection_view(c)),
                Err(e) => connection_from_argv(texts(argv@), opt_str(cwd)) == Err::<
                    (Seq<char>, Option<Seq<char>>),
                    SidebarError,
                >(e),
            },
    {
        let ghost args = texts(argv@);
        if argv.len() == 0 {
            return Err(SidebarError::NoArgv);
        }
        let mut server: Option<String> = None;
        let mut i: usize = 1;
        while i < argv.len()
            invariant
                args == texts(argv@),
                1 <= i <= argv.len(),
                scan_server(args, 1, None) == scan_server(args, i as int, opt_text(server)),
            ensures
                scan_server(args, 1, None) == Ok::<Option<Seq<char>>, SidebarError>(
                    opt_text(server),
                ),
            decreases argv.len() - i,
        {
            let a = argv[i].as_str();
            proof {
                assert(args[i as int] == a@);
            }
            if same_text(a, ARG_END) {
                break;
            } else if same_text(a, ARG_STANDALONE) {
                return Err(SidebarError::StandaloneServer);
            } else if same_text(a, ARG_PROMPT) || same_text(a, ARG_SESSION) || same_text(
                a,
                ARG_SESSION_SHORT,
            ) {
                if i + 1 < argv.len() {
                    i = i + 2;
                } else {
                    i = argv.len();
                }
            } else if same_text(a, ARG_SERVER) {
                if i + 1 < argv.len() {
                    proof {
                        assert(args[i + 1] == argv@[i + 1]@);
                    }
                    server = Some(argv[i + 1].clone());
                    i = i + 2;
                } else {
                    return Err(SidebarError::MissingServerUrl);
                }
            } else if has_prefix(a, SERVER_EQ) {
                proof {
                    reveal_strlit("--server=");
                }
                server = Some(text_after(a, 9));
                i = i + 1;
            } else {
                i = i + 1;
            }
        }
        match &server {
            Some(url) => {
                let u = url.as_str();
                let ok = if u.unicode_len() == 0 {
                    false
                } else {
                    u.get_char(0) != '-'
                };
                if !ok {
                    return Err(SidebarError::MissingServerUrl);
                }
            },
            None => {},
        }
        let bin = argv[0].as_str();
        assert(args[0] == bin@);
        let absolute = if bin.unicode_len() == 0 {
            false
        } else {
            bin.get_char(0) == '/'
        };
        if !absolute {
            let (n, _last, cur) = scan_path(bin);
            let cur_named = cur.as_str().unicode_len() > 0 && !same_text(cur.as_str(), ".");
            proof {
                reveal_strlit(".");
                assert(seq!['.'] =~= "."@);
            }
            let len = bin.unicode_len();
            let at_current = len > 0 && bin.get_char(0) == '.' && (len == 1 || bin.get_char(1)
                == '/');
            let more_than_one = if at_current {
                n >= 1 || cur_named
            } else {
                n >= 2 || (n >= 1 && cur_named)
            };
            assert(more_than_one == (relative_components(bin@) > 1));
            if more_than_one {
                match cwd {
                    Some(dir) => {
                        let dlen = dir.unicode_len();
                        let joined_bin = if dlen == 0 || dir.get_char(dlen - 1) == '/' {
                            joined(dir, bin)
                        } else {
                            joined(dir, "/").concat(bin)
                        };
                        proof {
                            reveal_strlit("/");
                            assert(joined_bin@ =~= joined_path(dir@, bin@));
                        }
                        return Ok(Connection { binary: joined_bin, server });
                    },
                    None => {
                        return Err(SidebarError::NoProcessCwd);
                    },
                }
            }
        }
        Ok(Connection { binary: owned(bin), server })
    }
}


/// The view of a connection result: the connection's view, or the error.
pub open spec fn connection_result(r: Result<Connection, SidebarError>) -> Result<
    (Seq<char>, Option<Seq<char>>),
    SidebarError,
> {
    match r {
        Ok(c) => Ok(connection_view(c)),
        Err(e) => Err(e),
    }
}

/// Whether a foreground process runs the OpenCode executable.
pub open spec fn is_opencode_process(p: Foreground) -> bool {
    p.argv@.len() > 0 && file_name(p.argv@[0]@) == Some(crate::herdr::OPENCODE@)
}

/// Whether `k` is the position of the first OpenCode process.
pub open spec fn is_first_opencode(ps: Seq<Foreground>, k: int) -> bool {
    &&& 0 <= k < ps.len()
    &&& is_opencode_process(ps[k])
    &&& forall|j: int| 0 <= j < k ==> !is_opencode_process(#[trigger] ps[j])
}

/// The connection that the first OpenCode process among `ps` describes.
pub open spec fn discovered(ps: Seq<Foreground>) -> Result<(Seq<char>, Option<Seq<char>>), SidebarError> {
    if exists|k: int| is_first_opencode(ps, k) {
        let k = choose|k: int| is_first_opencode(ps, k);
        connection_from_argv(texts(ps[k].argv@), opt_text(ps[k].cwd))
    } else {
        Err(SidebarError::ProcessNotFound)
    }
}

impl Connection {
    /// The connection of the first foreground process that runs OpenCode, read from its
    /// arguments and working directory.
    pub fn discover(processes: &Vec<Foreground>) -> (r: Result<Connection, SidebarError>)
        ensures
            (forall|k: int| 0 <= k < processes@.len() ==> !is_opencode_process(#[trigger] processes@[k]))
                ==> r == Err::<Connection, SidebarError>(SidebarError::ProcessNotFound),
            forall|k: int| is_first_opencode(processes@, k) ==> connection_result(r)
                == connection_from_argv(texts(processes@[k].argv@), opt_text(processes@[k].cwd)),
            connection_result(r) == discovered(processes@),
    {
        let mut i: usize = 0;
        while i < processes.len()
            invariant
                i <= processes.len(),
                forall|j: int| 0 <= j < i ==> !is_opencode_process(#[trigger] processes@[j]),
            decreases processes.len() - i,
        {
            let p = &processes[i];
            let found = if p.argv.len() > 0 {
                names_opencode(p.argv[0].as_str())
            } else {
                false
            };
            if found {
                let cwd = match &p.cwd {
                    Some(d) => Some(d.as_str()),
                    None => None,
                };
                assert(opt_str(cwd) == opt_text(p.cwd));
                let r = Connection::from_argv(&p.argv, cwd);
                assert(is_first_opencode(processes@, i as int));
                assert forall|k: int| is_first_opencode(processes@, k) implies k == i by {
                    if k < i {
                    } else if k > i {
                        assert(!is_opencode_process(processes@[i as int]));
                    }
                }
                return r;
            }
            i = i + 1;
        }
        assert forall|k: int| !is_first_opencode(processes@, k) by {
            if 0 <= k < processes@.len() {
                assert(!is_opencode_process(processes@[k]));
            }
        }
        Err(SidebarError::ProcessNotFound)
    }
}

/// A request to OpenCode's command-line API: the executable, the working directory it
/// runs in, and its arguments.
#[derive(Debug)]
pub struct ApiCommand {
    pub program: String,
    pub cwd: String,
    pub args: Vec<String>,
}

pub const ARG_API: &'static str = "api";
pub const ARG_DATA: &'static str = "--data";
pub const EMPTY_OBJECT: &'static str = "{}";
pub const METHOD_GET: &'static str = "get";
pub const METHOD_POST: &'static str = "post";
pub const SESSION_PATH: &'static str = "/api/session/";
pub const FORK_SUFFIX: &'static str = "/fork";
pub const HISTORY_SUFFIX: &'static str = "/message?limit=1";

/// The arguments of an API request: `api`, the server when one is known, the method and
/// the path, and for a fork an empty JSON body, which copies the whole history.
pub open spec fn api_args(server: Option<Seq<char>>, method: Seq<char>, path: Seq<char>, fork: bool) -> Seq<
    Seq<char>,
> {
    seq![ARG_API@] + (match server {
        Some(s) => seq![ARG_SERVER@, s],
        None => seq![],
    }) + seq![method, path] + (if fork {
        seq![ARG_DATA@, EMPTY_OBJECT@]
    } else {
        seq![]
    })
}

/// Whether `c` is the API request with these method, path and body, run by this
/// connection's executable in `cwd`.
pub open spec fn is_api_command(
    conn: Connection,
    c: ApiCommand,
    cwd: Seq<char>,
    method: Seq<char>,
    path: Seq<char>,
    fork: bool,
) -> bool {
    &&& c.program@ == conn.binary@
    &&& c.cwd@ == cwd
    &&& texts(c.args@) == api_args(opt_text(conn.server), method, path, fork)
}

/// An OpenCode session as the API reports it.
#[derive(Debug)]
pub struct Session {
    pub id: String,
    pub location: Location,
    pub fork: Option<Fork>,
}

/// The working directory of a session.
#[derive(Debug)]
pub struct Location {
    pub directory: String,
}

/// The session a fork was made from.
#[derive(Debug)]
pub struct Fork {
    pub session_id: String,
}

/// Whether a session is a fork of `parent`, other than `parent` itself.
pub open spec fn is_fork_of(s: Session, parent: Seq<char>) -> bool {
    &&& s.id@ != parent
    &&& s.fork matches Some(f) && f.session_id@ == parent
}

/// Whether the session reports `parent` as its origin and is not `parent` itself.
pub fn forked_from(s: &Session, parent: &str) -> (r: bool)
    ensures
        r == is_fork_of(*s, parent@),
{
    if same_text(s.id.as_str(), parent) {
        return false;
    }
    match &s.fork {
        Some(f) => same_text(f.session_id.as_str(), parent),
        None => false,
    }
}

impl Connection {
    fn api(&self, cwd: &str, method: &str, path: String, fork: bool) -> (c: ApiCommand)
        ensures
            is_api_command(*self, c, cwd@, method@, path@, fork),
    {
        let mut args: Vec<String> = Vec::new();
        args.push(owned(ARG_API));
        match &self.server {
            Some(s) => {
                args.push(owned(ARG_SERVER));
                args.push(s.clone());
            },
            None => {},
        }
        args.push(owned(method));
        args.push(path);
        if fork {
            args.push(owned(ARG_DATA));
            args.push(owned(EMPTY_OBJECT));
        }
        assert(texts(args@) =~= api_args(opt_text(self.server), method@, path@, fork));
        ApiCommand { program: self.binary.clone(), cwd: owned(cwd), args }
    }

    /// The request that reads session `id`, run in `cwd`; refused for a malformed id.
    pub fn get_request(&self, id: &str, cwd: &str) -> (r: Result<ApiCommand, SidebarError>)
        ensures
            r is Ok <==> is_session_id(id@),
            r is Err ==> r == Err::<ApiCommand, SidebarError>(SidebarError::InvalidSessionId),
            r matches Ok(c) ==> is_api_command(*self, c, cwd@, METHOD_GET@, SESSION_PATH@ + id@, false),
    {
        validate_id(id)?;
        Ok(self.api(cwd, METHOD_GET, joined(SESSION_PATH, id), false))
    }

    /// The request that forks session `id`, run in `cwd`; refused for a malformed id.
    pub fn fork_request(&self, id: &str, cwd: &str) -> (r: Result<ApiCommand, SidebarError>)
        ensures
            r is Ok <==> is_session_id(id@),
            r is Err ==> r == Err::<ApiCommand, SidebarError>(SidebarError::InvalidSessionId),
            r matches Ok(c) ==> is_api_command(
                *self,
                c,
                cwd@,
                METHOD_POST@,
                SESSION_PATH@ + id@ + FORK_SUFFIX@,
                true,
            ),
    {
        validate_id(id)?;
        let path = joined(SESSION_PATH, id).concat(FORK_SUFFIX);
        Ok(self.api(cwd, METHOD_POST, path, true))
    }

    /// The request that reads at most one message of session `id`, run in `cwd`;
    /// refused for a malformed id.
    pub fn history_request(&self, id: &str, cwd: &str) -> (r: Result<ApiCommand, SidebarError>)
        ensures
            r is Ok <==> is_session_id(id@),
            r is Err ==> r == Err::<ApiCommand, SidebarError>(SidebarError::InvalidSessionId),
            r matches Ok(c) ==> is_api_command(
                *self,
                c,
                cwd@,
                METHOD_GET@,
                SESSION_PATH@ + id@ + HISTORY_SUFFIX@,
                false,
            ),
    {
        validate_id(id)?;
        let path = joined(SESSION_PATH, id).concat(HISTORY_SUFFIX);
        Ok(self.api(cwd, METHOD_GET, path, false))
    }

    /// Checks OpenCode's answer to reading session `id`: it must be that session.
    pub fn get(&self, id: &str, reply: Session) -> (r: Result<Session, SidebarError>)
        ensures
            reply.id@ == id@ ==> r == Ok::<Session, SidebarError>(reply),
            reply.id@ != id@ ==> r == Err::<Session, SidebarError>(SidebarError::DifferentSession),
    {
        if same_text(reply.id.as_str(), id) {
            Ok(reply)
        } else {
            Err(SidebarError::DifferentSession)
        }
    }

    /// Checks OpenCode's answer to forking session `id`: a well-formed session that is a
    /// fork of `id`.
    pub fn fork(&self, id: &String, reply: Session) -> (r: Result<Session, SidebarError>)
        ensures
            !is_session_id(reply.id@) ==> r == Err::<Session, SidebarError>(
                SidebarError::InvalidSessionId,
            ),
            is_session_id(reply.id@) && is_fork_of(reply, id@) ==> r == Ok::<Session, SidebarError>(
                reply,
            ),
            is_session_id(reply.id@) && !is_fork_of(reply, id@) ==> r == Err::<Session, SidebarError>(
                SidebarError::NotAFork { parent: *id },
            ),
    {
        validate_id(reply.id.as_str())?;
        if forked_from(&reply, id.as_str()) {
            Ok(reply)
        } else {
            Err(SidebarError::NotAFork { parent: id.clone() })
        }
    }

    /// Checks that a conversation can be forked: OpenCode reported at least one message.
    pub fn ensure_forkable(&self, messages: usize) -> (r: Result<(), SidebarError>)
        ensures
            messages > 0 ==> r is Ok,
            messages == 0 ==> r == Err::<(), SidebarError>(SidebarError::EmptyConversation),
    {
        if messages > 0 {
            Ok(())
        } else {
            Err(SidebarError::EmptyConversation)
        }
    }
}

/// The arguments that open fork `session` in the terminal: the server when one is
/// given and not empty, then the session.
pub open spec fn attach_args(session: Seq<char>, server: Option<Seq<char>>) -> Seq<Seq<char>> {
    (match server {
        Some(s) => if s.len() > 0 {
            seq![ARG_SERVER@, s]
        } else {
            seq![]
        },
        None => seq![],
    }) + seq![ARG_SESSION@, session]
}

/// The OpenCode arguments that attach the terminal to fork `session`; refused for a
/// malformed session id.
pub fn attach_arguments(session: &str, server: Option<&str>) -> (r: Result<Vec<String>, SidebarError>)
    ensures
        r is Ok <==> is_session_id(session@),
        r is Err ==> r == Err::<Vec<String>, SidebarError>(SidebarError::InvalidSessionId),
        r matches Ok(v) ==> texts(v@) == attach_args(session@, opt_str(server)),
{
    validate_id(session)?;
    let mut args: Vec<String> = Vec::new();
    match server {
        Some(s) => {
            if s.unicode_len() > 0 {
                args.push(owned(ARG_SERVER));
                args.push(owned(s));
            }
        },
        None => {},
    }
    args.push(owned(ARG_SESSION));
    args.push(owned(session));
    assert(texts(args@) =~= attach_args(session@, opt_str(server)));
    Ok(args)
}

} // verus!
