//! The per-connection session loop as a state machine: each event (a line
//! read, or the stream closing) gives the lines to write back and whether the
//! session goes on. Whoever owns the stream performs the reads and writes.

use crate::connection::{Connection, ConnectionState};
use crate::dispatch::{
    bad, command_reply, lemma_keyword_lengths, handle_command, is_xoauth2_request, next_state, same_text, DispatchError,
};
use crate::parser::{words_of, Command, CommandView, ParseError};
use vstd::prelude::*;

verus! {

#[derive(Clone, Copy, Debug, PartialEq, Eq, Structural)]
pub enum SessionState {
    Running,
    Terminated,
}

/// What one read of the stream gave.
pub enum Event {
    /// The stream closed, or reading from it failed.
    Closed,
    /// A line that holds no command.
    Malformed(ParseError),
    /// A parsed command, with whether its credential was accepted (read for
    /// an `AUTHENTICATE XOAUTH2` request only).
    Received(Command, bool),
}

/// The lines to write, in order, and the state of the session after them.
pub struct Reply {
    pub lines: Vec<String>,
    pub next: SessionState,
}

pub open spec fn malformed_text() -> Seq<char> {
    "Client commands should have at least an identifier and a valid IMAPrev1 command\n"@
}

/// The answer to a line that holds no command: `BAD`, tagged `*`.
pub open spec fn malformed_line() -> Seq<char> {
    "*"@ + " BAD "@ + malformed_text()
}

/// The answer to an unknown command.
pub open spec fn unknown_line(tag: Seq<char>, name: Seq<char>) -> Seq<char> {
    tag + " BAD "@ + (name + " is not a valid command.\n"@)
}

/// The lines written back for a command.
pub open spec fn received_lines(c: CommandView, credential_ok: bool) -> Seq<Seq<char>> {
    match command_reply(c, credential_ok) {
        Ok(lines) => lines,
        Err(name) => seq![unknown_line(c.tag, name)],
    }
}

/// `LOGOUT` ends the session once its answer is written; any other command keeps it running.
pub open spec fn after_command(c: CommandView) -> SessionState {
    if c.name == "LOGOUT"@ {
        SessionState::Terminated
    } else {
        SessionState::Running
    }
}

/// Handles one event of a running session.
pub fn step(connection: &mut Connection, event: Event) -> (r: Reply)
    ensures
        match event {
            Event::Closed => r.lines@.len() == 0 && r.next == SessionState::Terminated
                && final(connection)@ == old(connection)@,
            Event::Malformed(_) => words_of(r.lines@) == seq![malformed_line()] && r.next
                == SessionState::Running && final(connection)@ == old(connection)@,
            Event::Received(c, ok) => words_of(r.lines@) == received_lines(c@, ok) && r.next
                == after_command(c@) && final(connection)@ == next_state(
                old(connection)@,
                c@,
                ok,
            ),
        },
{
    match event {
        Event::Closed => Reply { lines: Vec::new(), next: SessionState::Terminated },
        Event::Malformed(_) => {
            let line = bad(
                "*",
                "Client commands should have at least an identifier and a valid IMAPrev1 command\n",
            );
            let mut lines: Vec<String> = Vec::new();
            lines.push(line);
            assert(words_of(lines@) =~= seq![malformed_line()]);
            Reply { lines, next: SessionState::Running }
        },
        Event::Received(command, ok) => {
            let lines = match handle_command(connection, &command, ok) {
                Ok(lines) => lines,
                Err(DispatchError::UnknownCommand(name)) => {
                    let mut message = name;
                    message.append(" is not a valid command.\n");
                    let mut lines: Vec<String> = Vec::new();
                    lines.push(bad(command.tag.as_str(), message.as_str()));
                    assert(words_of(lines@) =~= seq![unknown_line(command@.tag, command@.name)]);
                    lines
                },
            };
            let next = if same_text(command.name.as_str(), "LOGOUT") {
                SessionState::Terminated
            } else {
                SessionState::Running
            };
            Reply { lines, next }
        },
    }
}

/// `CAPABILITY` is answered with the same lines whatever the authentication
/// state and whatever credential result is passed, and changes no state.
pub proof fn lemma_capability_state_independent(
    c: CommandView,
    s1: ConnectionState,
    s2: ConnectionState,
    ok1: bool,
    ok2: bool,
)
    requires
        c.name == "CAPABILITY"@,
    ensures
        received_lines(c, ok1) == received_lines(c, ok2),
        received_lines(c, ok1) == seq![
            "* CAPABILITY IMAP4rev1 AUTH=XOAUTH2 LOGINDISABLED\n"@,
            c.tag + " OK CAPABILITY completed\n"@,
        ],
        next_state(s1, c, ok1) == s1,
        next_state(s2, c, ok2) == s2,
        after_command(c) == SessionState::Running,
{
    lemma_keyword_lengths();
}

/// The authentication state never goes back: once authenticated, every
/// command leaves the connection authenticated.
pub proof fn lemma_state_never_regresses(c: CommandView, ok: bool)
    ensures
        next_state(ConnectionState::Authenticated, c, ok) == ConnectionState::Authenticated,
{
}

/// An accepted XOAUTH2 credential authenticates the connection from either
/// state; a second accepted request is answered the same way and leaves it
/// authenticated.
pub proof fn lemma_authenticate_accepted(s: ConnectionState, c: CommandView)
    requires
        is_xoauth2_request(c),
    ensures
        next_state(s, c, true) == ConnectionState::Authenticated,
        next_state(next_state(s, c, true), c, true) == ConnectionState::Authenticated,
        received_lines(c, true) == seq!["OK SASL authentication successful\n"@],
        after_command(c) == SessionState::Running,
{
    lemma_keyword_lengths();
}

/// `AUTHENTICATE` with other than two arguments is answered `BAD`, whatever
/// the mechanism, and changes no state.
pub proof fn lemma_authenticate_wrong_arity(s: ConnectionState, c: CommandView, ok: bool)
    requires
        c.name == "AUTHENTICATE"@,
        c.args.len() != 2,
    ensures
        received_lines(c, ok) == seq![c.tag + " BAD "@ + "Arguments invalid\n"@],
        next_state(s, c, ok) == s,
        after_command(c) == SessionState::Running,
{
    lemma_keyword_lengths();
}

/// `AUTHENTICATE` with a mechanism other than `XOAUTH2` is refused, whatever
/// the credential, and changes no state.
pub proof fn lemma_authenticate_unsupported_mechanism(
    s: ConnectionState,
    c: CommandView,
    ok: bool,
)
    requires
        c.name == "AUTHENTICATE"@,
        c.args.len() == 2,
        c.args[0] != "XOAUTH2"@,
    ensures
        received_lines(c, ok) == seq![c.tag + " NO Unsupported authentication mechanism\n"@],
        next_state(s, c, ok) == s,
        after_command(c) == SessionState::Running,
{
    lemma_keyword_lengths();
}

/// `LOGOUT` is answered with its two lines and then ends the session; the
/// ending does not depend on how writing them went.
pub proof fn lemma_logout_terminates(s: ConnectionState, c: CommandView, ok: bool)
    requires
        c.name == "LOGOUT"@,
    ensures
        received_lines(c, ok) == seq![
            "* BYE IMAPrev1 Server logging out\n"@,
            c.tag + " OK LOGOUT completed\n"@,
        ],
        after_command(c) == SessionState::Terminated,
        next_state(s, c, ok) == s,
{
    lemma_keyword_lengths();
}

/// A command that no handler takes is answered with exactly
/// `<tag> BAD <name> is not a valid command.`, and changes no state.
pub proof fn lemma_unknown_command(s: ConnectionState, c: CommandView, ok: bool)
    requires
        c.name != "AUTHENTICATE"@,
        c.name != "CAPABILITY"@,
        c.name != "LOGIN"@,
        c.name != "LOGOUT"@,
        c.name != "NOOP"@,
    ensures
        received_lines(c, ok) == seq![
            c.tag + " BAD "@ + (c.name + " is not a valid command.\n"@),
        ],
        next_state(s, c, ok) == s,
        after_command(c) == SessionState::Running,
{
}

} // verus!
