use imapd::connection::{new, set_authenticated_state, Connection, ConnectionState};
use imapd::dispatch::{bad, credential, handle_command, DispatchError};
use imapd::oauth2::Claims;
use imapd::parser::{read_command, Command, ParseError};
use imapd::session::{step, Event, SessionState};

fn command(line: &str) -> Command {
    read_command(line).unwrap()
}

fn run(conn: &mut Connection, line: &str, ok: bool) -> (Vec<String>, SessionState) {
    let r = step(conn, Event::Received(command(line), ok));
    (r.lines, r.next)
}

#[test]
fn new_connection_is_not_authenticated() {
    let c = new();
    assert_eq!(c.state(), ConnectionState::NotAuthenticated);
    assert!(!c.is_authenticated());
}

#[test]
fn set_authenticated_twice_stays_authenticated() {
    let mut c = new();
    set_authenticated_state(&mut c);
    assert_eq!(c.state(), ConnectionState::Authenticated);
    set_authenticated_state(&mut c);
    assert_eq!(c.state(), ConnectionState::Authenticated);
}

#[test]
fn bad_line_format() {
    assert_eq!(bad("x9", "oops\n"), "x9 BAD oops\n");
}

#[test]
fn capability_lines() {
    let mut c = new();
    let (lines, next) = run(&mut c, "a1 CAPABILITY", false);
    assert_eq!(
        lines,
        vec!["* CAPABILITY IMAP4rev1 AUTH=XOAUTH2 LOGINDISABLED\n", "a1 OK CAPABILITY completed\n"]
    );
    assert_eq!(next, SessionState::Running);
}

#[test]
fn capability_same_before_and_after_authentication() {
    let mut c = new();
    let (before, _) = run(&mut c, "c1 CAPABILITY", false);
    set_authenticated_state(&mut c);
    let (after, _) = run(&mut c, "c1 CAPABILITY", true);
    assert_eq!(before, after);
    assert_eq!(c.state(), ConnectionState::Authenticated);
}

#[test]
fn noop_line() {
    let mut c = new();
    let (lines, next) = run(&mut c, "n1 NOOP", false);
    assert_eq!(lines, vec!["n1 OK NOOP completed\n"]);
    assert_eq!(next, SessionState::Running);
}

#[test]
fn login_is_disabled() {
    let mut c = new();
    let (lines, next) = run(&mut c, "l1 LOGIN user pass", true);
    assert_eq!(lines, vec!["l1 NO Login is disabled.\n"]);
    assert_eq!(next, SessionState::Running);
    assert_eq!(c.state(), ConnectionState::NotAuthenticated);
}

#[test]
fn logout_lines_and_termination() {
    let mut c = new();
    let (lines, next) = run(&mut c, "o1 LOGOUT", false);
    assert_eq!(lines, vec!["* BYE IMAPrev1 Server logging out\n", "o1 OK LOGOUT completed\n"]);
    assert_eq!(next, SessionState::Terminated);
}

#[test]
fn authenticate_accepted_authenticates() {
    let mut c = new();
    let (lines, _) = run(&mut c, "x1 AUTHENTICATE XOAUTH2 tok", true);
    assert_eq!(lines, vec!["OK SASL authentication successful\n"]);
    assert_eq!(c.state(), ConnectionState::Authenticated);
    let (again, next) = run(&mut c, "x2 AUTHENTICATE XOAUTH2 tok", true);
    assert_eq!(again, vec!["OK SASL authentication successful\n"]);
    assert_eq!(next, SessionState::Running);
    assert_eq!(c.state(), ConnectionState::Authenticated);
}

#[test]
fn authenticate_rejected_credential() {
    let mut c = new();
    let (lines, _) = run(&mut c, "x1 AUTHENTICATE XOAUTH2 tok", false);
    assert_eq!(lines, vec!["x1 NO Invalid credentials\n"]);
    assert_eq!(c.state(), ConnectionState::NotAuthenticated);
}

#[test]
fn authenticate_after_success_keeps_state_when_rejected() {
    let mut c = new();
    run(&mut c, "x1 AUTHENTICATE XOAUTH2 tok", true);
    let (lines, _) = run(&mut c, "x2 AUTHENTICATE XOAUTH2 bad", false);
    assert_eq!(lines, vec!["x2 NO Invalid credentials\n"]);
    assert_eq!(c.state(), ConnectionState::Authenticated);
}

#[test]
fn authenticate_wrong_argument_counts() {
    for line in ["w1 AUTHENTICATE", "w1 AUTHENTICATE XOAUTH2", "w1 AUTHENTICATE XOAUTH2 tok extra", "w1 AUTHENTICATE PLAIN"] {
        let mut c = new();
        let (lines, next) = run(&mut c, line, true);
        assert_eq!(lines, vec!["w1 BAD Arguments invalid\n"]);
        assert_eq!(next, SessionState::Running);
        assert_eq!(c.state(), ConnectionState::NotAuthenticated);
    }
}

#[test]
fn authenticate_unsupported_mechanism() {
    let mut c = new();
    let (lines, _) = run(&mut c, "m1 AUTHENTICATE PLAIN tok", true);
    assert_eq!(lines, vec!["m1 NO Unsupported authentication mechanism\n"]);
    assert_eq!(c.state(), ConnectionState::NotAuthenticated);
    let (lower, _) = run(&mut c, "m2 AUTHENTICATE xoauth2 tok", true);
    assert_eq!(lower, vec!["m2 NO Unsupported authentication mechanism\n"]);
}

#[test]
fn unknown_command_line() {
    let mut c = new();
    let (lines, next) = run(&mut c, "t1 FOO", true);
    assert_eq!(lines, vec!["t1 BAD FOO is not a valid command.\n"]);
    assert_eq!(next, SessionState::Running);
    assert_eq!(c.state(), ConnectionState::NotAuthenticated);
}

#[test]
fn lowercase_command_is_unknown() {
    let mut c = new();
    let (lines, _) = run(&mut c, "t2 logout", false);
    assert_eq!(lines, vec!["t2 BAD logout is not a valid command.\n"]);
}

#[test]
fn handle_command_reports_unknown_name() {
    let mut c = new();
    match handle_command(&mut c, &command("t1 FOO bar"), false) {
        Err(DispatchError::UnknownCommand(name)) => assert_eq!(name, "FOO"),
        Ok(_) => panic!("FOO was handled"),
    }
}

#[test]
fn credential_only_for_xoauth2_requests() {
    assert_eq!(credential(&command("a AUTHENTICATE XOAUTH2 tok")), Some("tok".to_string()));
    assert_eq!(credential(&command("a AUTHENTICATE PLAIN tok")), None);
    assert_eq!(credential(&command("a AUTHENTICATE XOAUTH2")), None);
    assert_eq!(credential(&command("a CAPABILITY XOAUTH2 tok")), None);
}

#[test]
fn malformed_line_answered_bad_with_star() {
    let mut c = new();
    let r = step(&mut c, Event::Malformed(ParseError::Malformed));
    assert_eq!(
        r.lines,
        vec!["* BAD Client commands should have at least an identifier and a valid IMAPrev1 command\n"]
    );
    assert_eq!(r.next, SessionState::Running);
}

#[test]
fn closed_stream_terminates_silently() {
    let mut c = new();
    let r = step(&mut c, Event::Closed);
    assert!(r.lines.is_empty());
    assert_eq!(r.next, SessionState::Terminated);
}

#[test]
fn capability_then_logout_scenario() {
    let mut c = new();
    let (first, next) = run(&mut c, "a1 CAPABILITY\r\n", false);
    assert_eq!(
        first,
        vec!["* CAPABILITY IMAP4rev1 AUTH=XOAUTH2 LOGINDISABLED\n", "a1 OK CAPABILITY completed\n"]
    );
    assert_eq!(next, SessionState::Running);
    let (second, next) = run(&mut c, "a2 LOGOUT\n\0\0", false);
    assert_eq!(second, vec!["* BYE IMAPrev1 Server logging out\n", "a2 OK LOGOUT completed\n"]);
    assert_eq!(next, SessionState::Terminated);
    let after = step(&mut c, Event::Closed);
    assert!(after.lines.is_empty());
    assert_eq!(after.next, SessionState::Terminated);
}

#[test]
fn claims_hold_expiry() {
    let c = Claims { exp: 3600 };
    assert_eq!(c.exp, 3600);
}
