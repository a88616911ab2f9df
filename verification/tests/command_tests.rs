use pty_session::command::build_pty_command;
use pty_session::command::escape_shell;
use pty_session::command::external_terminal_args;
use pty_session::command::u16_to_decimal;
use pty_session::command::vscode_remote_token;
use pty_session::command::RemoteTarget;

fn target(
    host: &str,
    user: Option<&str>,
    port: Option<u16>,
    password: Option<&str>,
) -> RemoteTarget {
    RemoteTarget {
        host: host.to_string(),
        user: user.map(|u| u.to_string()),
        port,
        password: password.map(|w| w.to_string()),
    }
}

#[test]
fn default_shell_command() {
    let cmd = build_pty_command(None);
    assert!(cmd.program.is_none());
    assert!(cmd.args.is_empty());
    assert_eq!(cmd.env, vec![("TERM".to_string(), "xterm-256color".to_string())]);
}

#[test]
fn ssh_command_without_password() {
    let cmd = build_pty_command(Some(target("example.com", Some("alice"), None, None)));
    assert_eq!(cmd.program.as_deref(), Some("ssh"));
    assert_eq!(
        cmd.args,
        vec!["-o", "StrictHostKeyChecking=no", "-p", "22", "alice@example.com"]
    );
    assert_eq!(cmd.env, vec![("TERM".to_string(), "xterm-256color".to_string())]);
}

#[test]
fn ssh_command_custom_port_no_user() {
    let cmd = build_pty_command(Some(target("box", None, Some(2222), None)));
    assert_eq!(cmd.program.as_deref(), Some("ssh"));
    assert_eq!(cmd.args, vec!["-o", "StrictHostKeyChecking=no", "-p", "2222", "box"]);
}

#[test]
fn sshpass_command_with_password() {
    let cmd = build_pty_command(Some(target("example.com", Some("alice"), None, Some("s3cret"))));
    assert_eq!(cmd.program.as_deref(), Some("sshpass"));
    assert_eq!(
        cmd.args,
        vec!["-p", "s3cret", "ssh", "-o", "StrictHostKeyChecking=no", "-p", "22",
            "alice@example.com"]
    );
}

#[test]
fn external_terminal_plain_login() {
    let args = external_terminal_args(target("example.com", Some("alice"), Some(2200), None));
    assert_eq!(args, vec!["-e", "ssh", "-p", "2200", "alice@example.com"]);
}

#[test]
fn external_terminal_password_login() {
    let args = external_terminal_args(target("host", None, None, Some("a'b")));
    assert_eq!(
        args,
        vec!["-e", "sshpass", "-p", "a'b", "ssh", "-p", "22", "host"]
    );
}

#[test]
fn decimal_text_of_ports() {
    assert_eq!(u16_to_decimal(0), "0");
    assert_eq!(u16_to_decimal(7), "7");
    assert_eq!(u16_to_decimal(22), "22");
    assert_eq!(u16_to_decimal(65535), "65535");
}

#[test]
fn escape_shell_matches_replacement_semantics() {
    let input = "a\"b'c";
    let expected = input.replace('"', "\\\"").replace('\'', "'\\''");
    assert_eq!(escape_shell(input), expected);
    assert_eq!(escape_shell(input), "a\\\"b'\\''c");
}

#[test]
fn escape_shell_leaves_plain_text() {
    assert_eq!(escape_shell(""), "");
    assert_eq!(escape_shell("plain-text_123"), "plain-text_123");
}

#[test]
fn vscode_remote_token_names_the_login() {
    let token = vscode_remote_token(&target("example.com", Some("alice"), None, None));
    assert_eq!(token, "ssh-remote+alice@example.com");
    let bare = vscode_remote_token(&target("example.com", None, None, None));
    assert_eq!(bare, "ssh-remote+example.com");
}
