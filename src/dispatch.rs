//! Command dispatch: what each command is answered with, and how it
//! changes the connection's authentication state.

use crate::connection::{set_authenticated_state, Connection, ConnectionState};
use crate::parser::{words_of, Command, CommandView};
use vstd::prelude::*;
use vstd::string::*;

verus! {

/// A command that no handler takes; the caller answers it with `BAD`.
#[derive(Debug)]
pub enum DispatchError {
    UnknownCommand(String),
}

/// An `AUTHENTICATE` request whose credential must be checked before it can be answered.
pub open spec fn is_xoauth2_request(c: CommandView) -> bool {
    c.name == "AUTHENTICATE"@ && c.args.len() == 2 && c.args[0] == "XOAUTH2"@
}

/// The answer to `AUTHENTICATE`. The success line carries no tag: that is the
/// wire form clients of this server see.
pub open spec fn authenticate_reply(
    tag: Seq<char>,
    args: Seq<Seq<char>>,
    credential_ok: bool,
) -> Seq<Seq<char>> {
    if args.len() != 2 {
        seq![tag + " BAD "@ + "Arguments invalid\n"@]
    } else if args[0] != "XOAUTH2"@ {
        seq![tag + " NO Unsupported authentication mechanism\n"@]
    } else if credential_ok {
        seq!["OK SASL authentication successful\n"@]
    } else {
        seq![tag + " NO Invalid credentials\n"@]
    }
}

/// The response lines of a command, or the name of an unknown command.
/// `credential_ok` is whether the credential of an `AUTHENTICATE XOAUTH2`
/// request was accepted; no other command depends on it.
pub open spec fn command_reply(c: CommandView, credential_ok: bool) -> Result<
    Seq<Seq<char>>,
    Seq<char>,
> {
    if c.name == "AUTHENTICATE"@ {
        Ok(authenticate_reply(c.tag, c.args, credential_ok))
    } else if c.name == "CAPABILITY"@ {
        Ok(
            seq![
                "* CAPABILITY IMAP4rev1 AUTH=XOAUTH2 LOGINDISABLED\n"@,
                c.tag + " OK CAPABILITY completed\n"@,
            ],
        )
    } else if c.name == "LOGIN"@ {
        Ok(seq![c.tag + " NO Login is disabled.\n"@])
    } else if c.name == "LOGOUT"@ {
        Ok(seq!["* BYE IMAPrev1 Server logging out\n"@, c.tag + " OK LOGOUT completed\n"@])
    } else if c.name == "NOOP"@ {
        Ok(seq![c.tag + " OK NOOP completed\n"@])
    } else {
        Err(c.name)
    }
}

/// The authentication state after a command: only an accepted XOAUTH2
/// credential changes it, and only towards authenticated.
pub open spec fn next_state(
    s: ConnectionState,
    c: CommandView,
    credential_ok: bool,
) -> ConnectionState {
    if is_xoauth2_request(c) && credential_ok {
        ConnectionState::Authenticated
    } else {
        s
    }
}

/// The command keywords have pairwise different lengths, so no two are equal.
pub(crate) proof fn lemma_keyword_lengths()
    ensures
        "AUTHENTICATE"@.len() == 12,
        "CAPABILITY"@.len() == 10,
        "LOGIN"@.len() == 5,
        "LOGOUT"@.len() == 6,
        "NOOP"@.len() == 4,
{
    reveal_strlit("AUTHENTICATE");
    reveal_strlit("CAPABILITY");
    reveal_strlit("LOGIN");
    reveal_strlit("LOGOUT");
    reveal_strlit("NOOP");
}

/// Whether two texts are equal, character by character.
pub(crate) fn same_text(a: &str, b: &str) -> (r: bool)
    ensures
        r == (a@ == b@),
{
    let n = a.unicode_len();
    if n != b.unicode_len() {
        return false;
    }
    let mut i: usize = 0;
    while i < n
        invariant
            n == a@.len(),
            n == b@.len(),
            i <= n,
            forall|j: int| 0 <= j < i ==> a@[j] == b@[j],
        decreases n - i,
    {
        if a.get_char(i) != b.get_char(i) {
            return false;
        }
        i = i + 1;
    }
    assert(a@ =~= b@);
    true
}

/// `text` appended to a copy of `head`.
fn joined(head: &str, text: &str) -> (r: String)
    ensures
        r@ == head@ + text@,
{
    let mut s = String::from_str(head);
    s.append(text);
    s
}

fn one_line(line: String) -> (r: Vec<String>)
    ensures
        words_of(r@) == seq![line@],
{
    let mut v: Vec<String> = Vec::new();
    v.push(line);
    assert(words_of(v@) =~= seq![line@]);
    v
}

fn two_lines(first: String, second: String) -> (r: Vec<String>)
    ensures
        words_of(r@) == seq![first@, second@],
{
    let mut v: Vec<String> = Vec::new();
    v.push(first);
    v.push(second);
    assert(words_of(v@) =~= seq![first@, second@]);
    v
}

/// The tagged `BAD` line `<tag> BAD <message>`.
pub fn bad(tag: &str, message: &str) -> (r: String)
    ensures
        r@ == tag@ + " BAD "@ + message@,
{
    let mut s = joined(tag, " BAD ");
    s.append(message);
    s
}

/// The credential to check, for an `AUTHENTICATE XOAUTH2 <credential>` request only.
pub fn credential(command: &Command) -> (r: Option<String>)
    ensures
        r is Some <==> is_xoauth2_request(command@),
        r is Some ==> r->Some_0@ == command@.args[1],
{
    if same_text(command.name.as_str(), "AUTHENTICATE") && command.args.len() == 2
        && same_text(command.args[0].as_str(), "XOAUTH2") {
        Some(command.args[1].clone())
    } else {
        None
    }
}

fn authenticate(
    connection: &mut Connection,
    tag: &String,
    args: &Vec<String>,
    credential_ok: bool,
) -> (r: Vec<String>)
    ensures
        words_of(r@) == authenticate_reply(tag@, words_of(args@), credential_ok),
        final(connection)@ == (if args@.len() == 2 && args@[0]@ == "XOAUTH2"@ && credential_ok {
            ConnectionState::Authenticated
        } else {
            old(connection)@
        }),
{
    if args.len() != 2 {
        return one_line(bad(tag.as_str(), "Arguments invalid\n"));
    }
    if !same_text(args[0].as_str(), "XOAUTH2") {
        return one_line(joined(tag.as_str(), " NO Unsupported authentication mechanism\n"));
    }
    if credential_ok {
        set_authenticated_state(connection);
        one_line(String::from_str("OK SASL authentication successful\n"))
    } else {
        one_line(joined(tag.as_str(), " NO Invalid credentials\n"))
    }
}

fn capability(tag: &String) -> (r: Vec<String>)
    ensures
        words_of(r@) == seq![
            "* CAPABILITY IMAP4rev1 AUTH=XOAUTH2 LOGINDISABLED\n"@,
            tag@ + " OK CAPABILITY completed\n"@,
        ],
{
    two_lines(
        String::from_str("* CAPABILITY IMAP4rev1 AUTH=XOAUTH2 LOGINDISABLED\n"),
        joined(tag.as_str(), " OK CAPABILITY completed\n"),
    )
}

fn login(tag: &String) -> (r: Vec<String>)
    ensures
        words_of(r@) == seq![tag@ + " NO Login is disabled.\n"@],
{
    one_line(joined(tag.as_str(), " NO Login is disabled.\n"))
}

fn logout(tag: &String) -> (r: Vec<String>)
    ensures
        words_of(r@) == seq![
            "* BYE IMAPrev1 Server logging out\n"@,
            tag@ + " OK LOGOUT completed\n"@,
        ],
{
    two_lines(
        String::from_str("* BYE IMAPrev1 Server logging out\n"),
        joined(tag.as_str(), " OK LOGOUT completed\n"),
    )
}

fn noop(tag: &String) -> (r: Vec<String>)
    ensures
        words_of(r@) == seq![tag@ + " OK NOOP completed\n"@],
{
    one_line(joined(tag.as_str(), " OK NOOP completed\n"))
}

/// Answers a command. `credential_ok` is whether the credential that
/// [`credential`] gave for it was accepted; it is read for such a request only.
pub fn handle_command(
    connection: &mut Connection,
    command: &Command,
    credential_ok: bool,
) -> (r: Result<Vec<String>, DispatchError>)
    ensures
        match r {
            Ok(lines) => command_reply(command@, credential_ok) == Ok::<
                Seq<Seq<char>>,
                Seq<char>,
            >(words_of(lines@)),
            Err(DispatchError::UnknownCommand(name)) => command_reply(command@, credential_ok)
                == Err::<Seq<Seq<char>>, Seq<char>>(name@),
        },
        final(connection)@ == next_state(old(connection)@, command@, credential_ok),
{
    let name = command.name.as_str();
    if same_text(name, "AUTHENTICATE") {
        Ok(authenticate(connection, &command.tag, &command.args, credential_ok))
    } else if same_text(name, "CAPABILITY") {
        Ok(capability(&command.tag))
    } else if same_text(name, "LOGIN") {
        Ok(login(&command.tag))
    } else if same_text(name, "LOGOUT") {
        Ok(logout(&command.tag))
    } else if same_text(name, "NOOP") {
        Ok(noop(&command.tag))
    } else {
        Err(DispatchError::UnknownCommand(command.name.clone()))
    }
}

} // verus!
