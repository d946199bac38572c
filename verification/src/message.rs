//! The commands that a chat connection sends as JSON text frames, and how
//! one text frame is read as a command.
//!
//! Decoding the JSON into these records is done by serde on the caller's
//! side; the records here hold what the decoder produced (`None` where the
//! frame did not decode as that record).
use vstd::prelude::*;
use vstd::string::*;

verus! {

/// The view of an optional string: the characters of the string, if any.
pub open spec fn opt_chars(o: Option<String>) -> Option<Seq<char>> {
    match o {
        Some(s) => Some(s@),
        None => None,
    }
}

/// The command word of a login frame.
pub open spec fn login_word() -> Seq<char> {
    seq!['l', 'o', 'g', 'i', 'n']
}

/// The command word of a send frame.
pub open spec fn send_word() -> Seq<char> {
    seq!['s', 'e', 'n', 'd']
}

/// A frame of the shape `{"cmd": .., "id": ..}`: a connection announcing
/// the identifier (a UUID) under which it wants to be reached.
pub struct LoginMessage {
    pub cmd: String,
    pub id: Option<String>,
}

/// A frame of the shape `{"cmd": .., "to": .., "text": ..}`: a connection
/// asking that `text` be passed to the connection logged in as `to`.
pub struct SendMessage {
    pub cmd: String,
    pub to: Option<String>,
    pub text: Option<String>,
}

pub struct LoginMessageView {
    pub cmd: Seq<char>,
    pub id: Option<Seq<char>>,
}

pub struct SendMessageView {
    pub cmd: Seq<char>,
    pub to: Option<Seq<char>>,
    pub text: Option<Seq<char>>,
}

impl View for LoginMessage {
    type V = LoginMessageView;

    open spec fn view(&self) -> LoginMessageView {
        LoginMessageView { cmd: self.cmd@, id: opt_chars(self.id) }
    }
}

impl View for SendMessage {
    type V = SendMessageView;

    open spec fn view(&self) -> SendMessageView {
        SendMessageView { cmd: self.cmd@, to: opt_chars(self.to), text: opt_chars(self.text) }
    }
}

/// What one text frame asks for.
pub enum Command {
    /// Log this connection in, under the identifier if one was given.
    Login { id: Option<String> },
    /// Pass `text` to the connection logged in as `to`, where both were given.
    Send { to: Option<String>, text: Option<String> },
    /// Neither a login nor a send frame.
    Invalid,
}

pub enum CommandView {
    Login { id: Option<Seq<char>> },
    Send { to: Option<Seq<char>>, text: Option<Seq<char>> },
    Invalid,
}

impl View for Command {
    type V = CommandView;

    open spec fn view(&self) -> CommandView {
        match self {
            Command::Login { id } => CommandView::Login { id: opt_chars(*id) },
            Command::Send { to, text } => CommandView::Send {
                to: opt_chars(*to),
                text: opt_chars(*text),
            },
            Command::Invalid => CommandView::Invalid,
        }
    }
}

pub open spec fn opt_login_view(m: Option<LoginMessage>) -> Option<LoginMessageView> {
    match m {
        Some(l) => Some(l@),
        None => None,
    }
}

pub open spec fn opt_send_view(m: Option<SendMessage>) -> Option<SendMessageView> {
    match m {
        Some(s) => Some(s@),
        None => None,
    }
}

/// How a frame is read: a frame that decodes as a login record whose command
/// word is `login` is a login; otherwise a frame that decodes as a send record
/// whose command word is `send` is a send; anything else is invalid.
pub open spec fn classify_spec(
    login: Option<LoginMessageView>,
    send: Option<SendMessageView>,
) -> CommandView {
    if login is Some && login->0.cmd == login_word() {
        CommandView::Login { id: login->0.id }
    } else if send is Some && send->0.cmd == send_word() {
        CommandView::Send { to: send->0.to, text: send->0.text }
    } else {
        CommandView::Invalid
    }
}

fn is_word(cmd: &String, word: &str) -> (b: bool)
    ensures
        b == (cmd@ == word@),
{
    let w = String::from_str(word);
    *cmd == w
}

/// Reads a frame as a command, given what the frame decoded to as a login
/// record and as a send record.
pub fn classify(login: Option<LoginMessage>, send: Option<SendMessage>) -> (c: Command)
    ensures
        c@ == classify_spec(opt_login_view(login), opt_send_view(send)),
        login is Some && login->0.cmd@ == seq!['l', 'o', 'g', 'i', 'n'] ==> c@ == (CommandView::Login {
            id: opt_chars(login->0.id),
        }),
        !(login is Some && login->0.cmd@ == seq!['l', 'o', 'g', 'i', 'n']) && send is Some
            && send->0.cmd@ == seq!['s', 'e', 'n', 'd'] ==> c@ == (CommandView::Send {
            to: opt_chars(send->0.to),
            text: opt_chars(send->0.text),
        }),
        !(login is Some && login->0.cmd@ == seq!['l', 'o', 'g', 'i', 'n']) && !(send is Some
            && send->0.cmd@ == seq!['s', 'e', 'n', 'd']) ==> c@ == CommandView::Invalid,
{
    proof {
        reveal_strlit("login");
        reveal_strlit("send");
        assert("login"@ =~= login_word());
        assert("send"@ =~= send_word());
    }
    if let Some(l) = login {
        if is_word(&l.cmd, "login") {
            return Command::Login { id: l.id };
        }
    }
    if let Some(s) = send {
        if is_word(&s.cmd, "send") {
            return Command::Send { to: s.to, text: s.text };
        }
    }
    Command::Invalid
}

} // verus!
