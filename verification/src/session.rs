//! The per-connection session: a state machine from one input line to the
//! next state, the reply line, and the mail that the line completed.

use crate::text::{
    address, address_of, lowercase_of, same_text, starts_with_at, to_lower, to_upper, token_len,
    token_length, trim, trimmed, uppercase_of, Strip,
};
use vstd::prelude::*;
use vstd::string::*;

verus! {

/// The phase of a session, which decides how the next line is read.
pub enum SmtpState {
    /// Lines are commands.
    Command,
    /// Lines are message content, up to a line that holds a single `.`.
    Data,
    /// The client has quit: no further line is read.
    Quit,
}

/// A completed mail: sender, recipient and body.
pub struct SmtpMail {
    pub from: String,
    pub rcpt: String,
    pub message_body: String,
}

/// The mathematical value of a mail.
pub struct MailView {
    pub from: Seq<char>,
    pub rcpt: Seq<char>,
    pub message_body: Seq<char>,
}

impl View for SmtpMail {
    type V = MailView;

    open spec fn view(&self) -> MailView {
        MailView { from: self.from@, rcpt: self.rcpt@, message_body: self.message_body@ }
    }
}

/// What one line brought about: the reply line to write, without its line
/// ending, and the mail that the line completed.
pub struct Outcome {
    pub reply: Option<String>,
    pub mail: Option<SmtpMail>,
}

/// The mathematical value of an outcome.
pub struct OutcomeView {
    pub reply: Option<Seq<char>>,
    pub mail: Option<MailView>,
}

/// The characters of an optional text.
pub open spec fn text_of(t: Option<String>) -> Option<Seq<char>> {
    match t {
        Some(s) => Some(s@),
        None => None,
    }
}

impl View for Outcome {
    type V = OutcomeView;

    open spec fn view(&self) -> OutcomeView {
        OutcomeView {
            reply: text_of(self.reply),
            mail: match self.mail {
                Some(m) => Some(m@),
                None => None,
            },
        }
    }
}

/// The characters of an optional borrowed text.
pub open spec fn str_of(t: Option<&str>) -> Option<Seq<char>> {
    match t {
        Some(s) => Some(s@),
        None => None,
    }
}

/// The outcome that is one reply line and no mail.
pub open spec fn say(text: Seq<char>) -> OutcomeView {
    OutcomeView { reply: Some(text), mail: None }
}

/// The outcome that is neither a reply nor a mail.
pub open spec fn silent() -> OutcomeView {
    OutcomeView { reply: None, mail: None }
}

impl Outcome {
    /// One reply line and no mail.
    pub fn say(text: String) -> (out: Outcome)
        ensures
            out@ == say(text@),
    {
        Outcome { reply: Some(text), mail: None }
    }

    /// Neither a reply nor a mail.
    pub fn silent() -> (out: Outcome)
        ensures
            out@ == silent(),
    {
        Outcome { reply: None, mail: None }
    }
}

/// The mathematical value of a session.
pub struct SessionView {
    /// The name the client gave in its greeting.
    pub hostname: Option<Seq<char>>,
    /// The sender of the mail in progress.
    pub mailfrom: Option<Seq<char>>,
    /// The recipient of the mail in progress.
    pub rcpt: Option<Seq<char>>,
    /// The body of the mail in progress: its lines, each followed by a newline.
    pub message: Seq<char>,
    pub state: SmtpState,
}

/// The session of a connection that has said nothing yet.
pub open spec fn fresh() -> SessionView {
    SessionView {
        hostname: None,
        mailfrom: None,
        rcpt: None,
        message: Seq::empty(),
        state: SmtpState::Command,
    }
}

/// `s` with the mail in progress discarded.
pub open spec fn cleared(s: SessionView) -> SessionView {
    SessionView { mailfrom: None, rcpt: None, message: Seq::empty(), ..s }
}

/// The command token of a line: what stands before its first space.
pub open spec fn token_of(line: Seq<char>) -> Seq<char> {
    line.take(token_len(line) as int)
}

/// The argument of a line: what follows the command token, trimmed.
pub open spec fn argument_of(line: Seq<char>) -> Seq<char> {
    trimmed(line.skip(token_len(line) as int), Strip::Whitespace)
}

/// What a command does to a session. `upper` is the token in upper case and
/// `lower` the argument in lower case.
pub open spec fn command_step(
    s: SessionView,
    token: Seq<char>,
    upper: Seq<char>,
    arg: Seq<char>,
    lower: Seq<char>,
) -> (SessionView, OutcomeView) {
    if upper == "HELO"@ || upper == "EHLO"@ {
        if arg.len() > 0 {
            (SessionView { hostname: Some(arg), ..s }, say("250 Hello "@ + arg))
        } else {
            (s, say("501 Syntax: HELO hostname"@))
        }
    } else if upper == "MAIL"@ {
        if "from:"@.is_prefix_of(lower) {
            (SessionView { mailfrom: Some(address_of(lower, "from:"@)), ..s }, say("250 OK"@))
        } else {
            (s, say("501 Syntax: MAIL From: <address>"@))
        }
    } else if upper == "RCPT"@ {
        if "to:"@.is_prefix_of(lower) {
            (SessionView { rcpt: Some(address_of(lower, "to:"@)), ..s }, say("250 OK"@))
        } else {
            (s, say("501 Syntax: RCPT To: <address>"@))
        }
    } else if upper == "DATA"@ {
        (SessionView { state: SmtpState::Data, ..s }, say("354 End data with <CRLF>.<CRLF>"@))
    } else if upper == "NOOP"@ {
        if arg.len() == 0 {
            (s, say("250 OK"@))
        } else {
            (s, say("501 Syntax: NOOP"@))
        }
    } else if upper == "RSET"@ {
        (cleared(s), say("250 OK"@))
    } else if upper == "QUIT"@ {
        (SessionView { state: SmtpState::Quit, ..s }, say("221 Have a nice day!"@))
    } else {
        (s, say("500 Error: Unknown command '"@ + token + "'"@))
    }
}

/// What a line of message content does to a session. A line that holds a
/// single `.` ends the message: with sender and recipient both known the mail
/// is handed out; without them it is refused and nothing is handed out.
/// Either way the mail in progress is discarded and commands are read again.
pub open spec fn data_step(s: SessionView, line: Seq<char>) -> (SessionView, OutcomeView) {
    if line == "."@ {
        let next = SessionView { state: SmtpState::Command, ..cleared(s) };
        match (s.mailfrom, s.rcpt) {
            (Some(from), Some(rcpt)) => (
                next,
                OutcomeView {
                    reply: Some("250 OK"@),
                    mail: Some(MailView { from: from, rcpt: rcpt, message_body: s.message }),
                },
            ),
            _ => (next, say("503 Error: need MAIL and RCPT before the message"@)),
        }
    } else {
        (SessionView { message: s.message + line + "\n"@, ..s }, silent())
    }
}

/// What one input line does to a session.
pub open spec fn step(s: SessionView, line: Seq<char>) -> (SessionView, OutcomeView) {
    match s.state {
        SmtpState::Command => command_step(
            s,
            token_of(line),
            uppercase_of(token_of(line)),
            argument_of(line),
            lowercase_of(argument_of(line)),
        ),
        SmtpState::Data => data_step(s, line),
        SmtpState::Quit => (s, silent()),
    }
}

/// The protocol state of one connection.
pub struct SmtpConnection {
    hostname: Option<String>,
    mailfrom: Option<String>,
    rcpt: Option<String>,
    message: String,
    state: SmtpState,
}

impl View for SmtpConnection {
    type V = SessionView;

    closed spec fn view(&self) -> SessionView {
        SessionView {
            hostname: text_of(self.hostname),
            mailfrom: text_of(self.mailfrom),
            rcpt: text_of(self.rcpt),
            message: self.message@,
            state: self.state,
        }
    }
}

impl SmtpConnection {
    /// The session of a connection that has said nothing yet.
    pub fn new() -> (conn: SmtpConnection)
        ensures
            conn@ == fresh(),
    {
        SmtpConnection {
            hostname: None,
            mailfrom: None,
            rcpt: None,
            message: String::new(),
            state: SmtpState::Command,
        }
    }

    /// The line that greets a client when its connection is accepted.
    pub fn greeting() -> (line: String)
        ensures
            line@ == "220 Rust smtpd v0.1.0"@,
    {
        String::from_str("220 Rust smtpd v0.1.0")
    }

    /// The name the client gave in its greeting.
    pub fn hostname(&self) -> (name: Option<&str>)
        ensures
            str_of(name) == self@.hostname,
    {
        match &self.hostname {
            Some(s) => Some(s.as_str()),
            None => None,
        }
    }

    /// The sender of the mail in progress.
    pub fn sender(&self) -> (addr: Option<&str>)
        ensures
            str_of(addr) == self@.mailfrom,
    {
        match &self.mailfrom {
            Some(s) => Some(s.as_str()),
            None => None,
        }
    }

    /// The recipient of the mail in progress.
    pub fn recipient(&self) -> (addr: Option<&str>)
        ensures
            str_of(addr) == self@.rcpt,
    {
        match &self.rcpt {
            Some(s) => Some(s.as_str()),
            None => None,
        }
    }

    /// The body of the mail in progress.
    pub fn body(&self) -> (text: &str)
        ensures
            text@ == self@.message,
    {
        self.message.as_str()
    }

    /// Whether the client has quit, so that no further line is to be read.
    pub fn is_closed(&self) -> (closed: bool)
        ensures
            closed == (self@.state is Quit),
    {
        match self.state {
            SmtpState::Quit => true,
            _ => false,
        }
    }

    /// Whether the next line is message content.
    pub fn in_data(&self) -> (data: bool)
        ensures
            data == (self@.state is Data),
    {
        match self.state {
            SmtpState::Data => true,
            _ => false,
        }
    }

    /// Reads one input line, given without its line ending.
    pub fn line_received(&mut self, line: &str) -> (out: Outcome)
        ensures
            final(self)@ == step(old(self)@, line@).0,
            out@ == step(old(self)@, line@).1,
    {
        match self.state {
            SmtpState::Command => {
                let n: usize = token_length(line);
                let token = line.substring_char(0, n);
                let arg = trim(line.substring_char(n, line.unicode_len()), Strip::Whitespace);
                let upper = to_upper(token);
                let lower = to_lower(arg);
                self.command_received(token, upper.as_str(), arg, lower.as_str())
            },
            SmtpState::Data => self.data_received(line),
            SmtpState::Quit => Outcome::silent(),
        }
    }

    /// Carries out one command, given as its token, the token in upper case,
    /// its argument and the argument in lower case.
    pub fn command_received(
        &mut self,
        token: &str,
        upper: &str,
        arg: &str,
        lower: &str,
    ) -> (out: Outcome)
        ensures
            final(self)@ == command_step(old(self)@, token@, upper@, arg@, lower@).0,
            out@ == command_step(old(self)@, token@, upper@, arg@, lower@).1,
    {
        if same_text(upper, "HELO") || same_text(upper, "EHLO") {
            if arg.unicode_len() > 0 {
                self.hostname = Some(String::from_str(arg));
                Outcome::say(String::from_str("250 Hello ").concat(arg))
            } else {
                Outcome::say(String::from_str("501 Syntax: HELO hostname"))
            }
        } else if same_text(upper, "MAIL") {
            if starts_with_at(lower, 0, "from:") {
                self.mailfrom = Some(address(lower, "from:"));
                Outcome::say(String::from_str("250 OK"))
            } else {
                Outcome::say(String::from_str("501 Syntax: MAIL From: <address>"))
            }
        } else if same_text(upper, "RCPT") {
            if starts_with_at(lower, 0, "to:") {
                self.rcpt = Some(address(lower, "to:"));
                Outcome::say(String::from_str("250 OK"))
            } else {
                Outcome::say(String::from_str("501 Syntax: RCPT To: <address>"))
            }
        } else if same_text(upper, "DATA") {
            self.state = SmtpState::Data;
            Outcome::say(String::from_str("354 End data with <CRLF>.<CRLF>"))
        } else if same_text(upper, "NOOP") {
            if arg.unicode_len() == 0 {
                Outcome::say(String::from_str("250 OK"))
            } else {
                Outcome::say(String::from_str("501 Syntax: NOOP"))
            }
        } else if same_text(upper, "RSET") {
            self.mailfrom = None;
            self.rcpt = None;
            self.message = String::new();
            Outcome::say(String::from_str("250 OK"))
        } else if same_text(upper, "QUIT") {
            self.state = SmtpState::Quit;
            Outcome::say(String::from_str("221 Have a nice day!"))
        } else {
            Outcome::say(String::from_str("500 Error: Unknown command '").concat(token).concat("'"))
        }
    }

    /// Takes one line of message content.
    pub fn data_received(&mut self, line: &str) -> (out: Outcome)
        ensures
            final(self)@ == data_step(old(self)@, line@).0,
            out@ == data_step(old(self)@, line@).1,
    {
        if same_text(line, ".") {
            let from = self.mailfrom.take();
            let rcpt = self.rcpt.take();
            let mut body = String::new();
            core::mem::swap(&mut self.message, &mut body);
            self.state = SmtpState::Command;
            match (from, rcpt) {
                (Some(from), Some(rcpt)) => Outcome {
                    reply: Some(String::from_str("250 OK")),
                    mail: Some(SmtpMail { from: from, rcpt: rcpt, message_body: body }),
                },
                _ => Outcome::say(String::from_str("503 Error: need MAIL and RCPT before the message")),
            }
        } else {
            self.message.append(line);
            self.message.append("\n");
            Outcome::silent()
        }
    }
}

} // verus!
