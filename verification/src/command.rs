//! Command builder: from an optional remote target to the program, argument
//! vector and environment of the process to run inside the pseudo-terminal.
//!
//! Every argument is a discrete token — nothing is ever concatenated into a
//! single shell string — so no quoting or escaping can corrupt a host name,
//! a user name or a password.

use vstd::prelude::*;
use vstd::string::StrSliceExecFns;
use vstd::string::StringExecFns;

verus! {

/// The port a remote login uses when the target names none.
pub const DEFAULT_SSH_PORT: u16 = 22;

/// The fixed number of rows a fresh pseudo-terminal starts with.
pub const INITIAL_ROWS: u16 = 24;

/// The fixed number of columns a fresh pseudo-terminal starts with.
pub const INITIAL_COLS: u16 = 80;

/// A remote login target, supplied by the caller at open time and not
/// retained by the core.
pub struct RemoteTarget {
    pub host: String,
    pub user: Option<String>,
    pub port: Option<u16>,
    pub password: Option<String>,
}

impl RemoteTarget {
    /// The login destination token: `user@host`, or `host` alone.
    pub open spec fn target_chars(&self) -> Seq<char> {
        match self.user {
            Some(u) => u@ + "@"@ + self.host@,
            None => self.host@,
        }
    }

    /// The port the login uses.
    pub open spec fn port_value(&self) -> u16 {
        match self.port {
            Some(p) => p,
            None => DEFAULT_SSH_PORT,
        }
    }
}

/// What to run inside the pseudo-terminal: a program with its arguments, or
/// the platform default interactive shell when `program` is `None`.
pub struct PtyCommand {
    pub program: Option<String>,
    pub args: Vec<String>,
    pub env: Vec<(String, String)>,
}

/// The character of a decimal digit value.
pub open spec fn digit_char(d: nat) -> char {
    if d == 0 {
        '0'
    } else if d == 1 {
        '1'
    } else if d == 2 {
        '2'
    } else if d == 3 {
        '3'
    } else if d == 4 {
        '4'
    } else if d == 5 {
        '5'
    } else if d == 6 {
        '6'
    } else if d == 7 {
        '7'
    } else if d == 8 {
        '8'
    } else {
        '9'
    }
}

/// The decimal digits of `n`, most significant first, no leading zeros.
pub open spec fn dec_digits(n: nat) -> Seq<char>
    decreases n,
{
    if n < 10 {
        seq![digit_char(n)]
    } else {
        dec_digits(n / 10).push(digit_char(n % 10))
    }
}

/// The argument tokens of an `ssh` login.
pub open spec fn ssh_args(target: Seq<char>, port: u16) -> Seq<Seq<char>> {
    seq!["-o"@, "StrictHostKeyChecking=no"@, "-p"@, dec_digits(port as nat), target]
}

/// The argument tokens of a password-assisted login: `sshpass` feeds the
/// password to the same `ssh` invocation.
pub open spec fn sshpass_args(password: Seq<char>, target: Seq<char>, port: u16) -> Seq<
    Seq<char>,
> {
    seq!["-p"@, password, "ssh"@] + ssh_args(target, port)
}

/// Relies on `String::push`: appends exactly one character at the end.
#[verifier::external_body]
pub(crate) fn push_char(s: &mut String, c: char)
    ensures
        final(s)@ == old(s)@.push(c),
{
    s.push(c);
}

/// The character of one decimal digit value.
fn decimal_digit(d: u16) -> (c: char)
    requires
        d < 10,
    ensures
        c == digit_char(d as nat),
{
    if d == 0 {
        '0'
    } else if d == 1 {
        '1'
    } else if d == 2 {
        '2'
    } else if d == 3 {
        '3'
    } else if d == 4 {
        '4'
    } else if d == 5 {
        '5'
    } else if d == 6 {
        '6'
    } else if d == 7 {
        '7'
    } else if d == 8 {
        '8'
    } else {
        '9'
    }
}

/// The decimal text of `n`, most significant digit first.
pub fn u16_to_decimal(n: u16) -> (r: String)
    ensures
        r@ == dec_digits(n as nat),
    decreases n,
{
    if n < 10 {
        let mut s = String::new();
        push_char(&mut s, decimal_digit(n));
        proof {
            assert(Seq::<char>::empty().push(digit_char(n as nat)) =~= seq![
                digit_char(n as nat),
            ]);
        }
        s
    } else {
        let mut s = u16_to_decimal(n / 10);
        push_char(&mut s, decimal_digit(n % 10));
        proof {
            assert((n / 10) as nat == n as nat / 10);
            assert((n % 10) as nat == n as nat % 10);
        }
        s
    }
}

/// One character of the external-terminal escaping: a double quote gains a
/// backslash, a single quote becomes the quoted `'\''` sequence, and every
/// other character stands as it is.
pub open spec fn escaped_char(c: char) -> Seq<char> {
    if c == '"' {
        seq!['\\', '"']
    } else if c == '\'' {
        seq!['\'', '\\', '\'', '\'']
    } else {
        seq![c]
    }
}

/// The external-terminal escaping of a whole string.
pub open spec fn shell_escaped(s: Seq<char>) -> Seq<char>
    decreases s.len(),
{
    if s.len() == 0 {
        Seq::empty()
    } else {
        shell_escaped(s.drop_last()) + escaped_char(s.last())
    }
}

/// Escape a string so it can stand inside a shell word, for a host that
/// must compose a single shell string after all; the library's own launch
/// paths pass discrete tokens and never compose one.
pub fn escape_shell(input: &str) -> (r: String)
    ensures
        r@ == shell_escaped(input@),
{
    let n = input.unicode_len();
    let mut out = String::new();
    let mut i: usize = 0;
    while i < n
        invariant
            n == input@.len(),
            i <= n,
            out@ == shell_escaped(input@.take(i as int)),
        decreases n - i,
    {
        let ghost prefix = out@;
        let c = input.get_char(i);
        if c == '"' {
            out.append("\\\"");
            proof {
                reveal_strlit("\\\"");
                assert("\\\""@ =~= escaped_char(c));
            }
        } else if c == '\'' {
            out.append("'\\''");
            proof {
                reveal_strlit("'\\''");
                assert("'\\''"@ =~= escaped_char(c));
            }
        } else {
            push_char(&mut out, c);
            proof {
                assert(prefix.push(c) =~= prefix + escaped_char(c));
            }
        }
        proof {
            assert(input@.take(i + 1 as int).drop_last() =~= input@.take(i as int));
            assert(input@.take(i + 1 as int).last() == c);
        }
        i += 1;
    }
    proof {
        assert(input@.take(n as int) =~= input@);
    }
    out
}

/// The environment every spawned process gets: the child perceives a
/// full-capability terminal.
fn terminal_env() -> (r: Vec<(String, String)>)
    ensures
        r@.len() == 1,
        r@[0].0@ == "TERM"@,
        r@[0].1@ == "xterm-256color"@,
{
    let mut env: Vec<(String, String)> = Vec::new();
    env.push((String::from_str("TERM"), String::from_str("xterm-256color")));
    env
}

/// The remote token a code editor window is pointed at: the login
/// destination behind its `ssh-remote+` scheme.
pub fn vscode_remote_token(target: &RemoteTarget) -> (r: String)
    ensures
        r@ == "ssh-remote+"@ + target.target_chars(),
{
    let login = match &target.user {
        Some(u) => u.clone().concat("@").concat(target.host.as_str()),
        None => target.host.clone(),
    };
    String::from_str("ssh-remote+").concat(login.as_str())
}

/// The argument vector handed to the external terminal emulator to connect
/// to a target in its own window.
///
/// Every argument is a discrete token and no shell string is ever composed:
/// a plain `ssh` login, or, when the target carries a password, the same
/// login fed by `sshpass` with the password as its own token — a legacy,
/// insecure path kept for profiles that hold one; prefer key-based login.
pub fn external_terminal_args(target: RemoteTarget) -> (r: Vec<String>)
    ensures
        target.password is None ==> r.deep_view() == seq![
            "-e"@,
            "ssh"@,
            "-p"@,
            dec_digits(target.port_value() as nat),
            target.target_chars(),
        ],
        target.password matches Some(pw) ==> r.deep_view() == seq![
            "-e"@,
            "sshpass"@,
            "-p"@,
            pw@,
            "ssh"@,
            "-p"@,
            dec_digits(target.port_value() as nat),
            target.target_chars(),
        ],
{
    let ghost target_view = target.target_chars();
    let ghost port_view = target.port_value();
    let RemoteTarget { host, user, port, password } = target;
    let port_num = match port {
        Some(p) => p,
        None => DEFAULT_SSH_PORT,
    };
    let port_text = u16_to_decimal(port_num);
    let login = match user {
        Some(u) => u.concat("@").concat(host.as_str()),
        None => host,
    };
    let mut args: Vec<String> = Vec::new();
    args.push(String::from_str("-e"));
    match password {
        Some(pw) => {
            let ghost pw_view = pw@;
            args.push(String::from_str("sshpass"));
            args.push(String::from_str("-p"));
            args.push(pw);
            args.push(String::from_str("ssh"));
            args.push(String::from_str("-p"));
            args.push(port_text);
            args.push(login);
            proof {
                assert(args.deep_view() =~= seq![
                    "-e"@,
                    "sshpass"@,
                    "-p"@,
                    pw_view,
                    "ssh"@,
                    "-p"@,
                    dec_digits(port_view as nat),
                    target_view,
                ]);
            }
        },
        None => {
            args.push(String::from_str("ssh"));
            args.push(String::from_str("-p"));
            args.push(port_text);
            args.push(login);
            proof {
                assert(args.deep_view() =~= seq![
                    "-e"@,
                    "ssh"@,
                    "-p"@,
                    dec_digits(port_view as nat),
                    target_view,
                ]);
            }
        },
    }
    args
}

/// Build the command to run inside the pseudo-terminal.
///
/// No target: the platform default interactive shell, no extra arguments.
/// A target without a password: a plain `ssh` login. A target with one: the
/// same `ssh` login fed by `sshpass` — a legacy, insecure path kept for
/// callers whose profiles carry a password; prefer key-based login. The
/// builder does not validate the target; an empty host is the caller's to
/// reject upstream.
pub fn build_pty_command(target: Option<RemoteTarget>) -> (r: PtyCommand)
    ensures
        r.env@.len() == 1 && r.env@[0].0@ == "TERM"@ && r.env@[0].1@ == "xterm-256color"@,
        target is None ==> r.program is None && r.args@.len() == 0,
        target matches Some(t) ==> {
            &&& t.password is None ==> ((r.program matches Some(p) && p@ == "ssh"@)
                && r.args.deep_view() == ssh_args(t.target_chars(), t.port_value()))
            &&& t.password matches Some(pw) ==> ((r.program matches Some(p) && p@ == "sshpass"@)
                && r.args.deep_view() == sshpass_args(pw@, t.target_chars(), t.port_value()))
        },
{
    let env = terminal_env();
    match target {
        None => PtyCommand { program: None, args: Vec::new(), env },
        Some(t) => {
            let ghost target_view = t.target_chars();
            let ghost port_view = t.port_value();
            let RemoteTarget { host, user, port, password } = t;
            let port_num = match port {
                Some(p) => p,
                None => DEFAULT_SSH_PORT,
            };
            let port_text = u16_to_decimal(port_num);
            let login = match user {
                Some(u) => u.concat("@").concat(host.as_str()),
                None => host,
            };
            proof {
                assert(login@ == target_view);
                assert(port_num == port_view);
            }
            let mut args: Vec<String> = Vec::new();
            let program = match password {
                Some(pw) => {
                    args.push(String::from_str("-p"));
                    args.push(pw);
                    args.push(String::from_str("ssh"));
                    String::from_str("sshpass")
                },
                None => String::from_str("ssh"),
            };
            let ghost lead = args.deep_view();
            args.push(String::from_str("-o"));
            args.push(String::from_str("StrictHostKeyChecking=no"));
            args.push(String::from_str("-p"));
            args.push(port_text);
            args.push(login);
            proof {
                assert(args.deep_view() =~= lead + ssh_args(target_view, port_view));
                if lead.len() == 3 {
                    assert(args.deep_view() =~= sshpass_args(lead[1], target_view, port_view));
                } else {
                    assert(args.deep_view() =~= ssh_args(target_view, port_view));
                }
            }
            PtyCommand { program: Some(program), args, env }
        },
    }
}

} // verus!
