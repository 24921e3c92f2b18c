//! The delivery queue: completed mails wait here, first come first served,
//! until the consumer takes them.

use crate::session::{fresh, step, text_of, MailView, SmtpConnection, SmtpMail};
use vstd::prelude::*;

verus! {

/// The queue after a mail has joined it.
pub open spec fn enqueued(q: Seq<MailView>, mail: MailView) -> Seq<MailView> {
    q.push(mail)
}

/// The queue after an optional mail has joined it.
pub open spec fn delivered(q: Seq<MailView>, mail: Option<MailView>) -> Seq<MailView> {
    match mail {
        Some(m) => enqueued(q, m),
        None => q,
    }
}

/// What a pull takes from the queue, and what it leaves.
pub open spec fn pulled(q: Seq<MailView>) -> (Option<MailView>, Seq<MailView>) {
    if q.len() == 0 {
        (None, q)
    } else {
        (Some(q[0]), q.skip(1))
    }
}

/// The mathematical value of an optional mail.
pub open spec fn mail_of(m: Option<SmtpMail>) -> Option<MailView> {
    match m {
        Some(m) => Some(m@),
        None => None,
    }
}

/// The server: the queue of completed mails, oldest first.
pub struct SmtpServer {
    queue: Vec<SmtpMail>,
}

impl View for SmtpServer {
    type V = Seq<MailView>;

    closed spec fn view(&self) -> Seq<MailView> {
        Seq::new(self.queue@.len(), |i: int| self.queue@[i]@)
    }
}

impl SmtpServer {
    /// A server with nothing queued.
    pub fn new() -> (server: SmtpServer)
        ensures
            server@ == Seq::<MailView>::empty(),
    {
        let server = SmtpServer { queue: Vec::new() };
        proof {
            assert(server@ =~= Seq::<MailView>::empty());
        }
        server
    }

    /// The session for a connection that has just been accepted.
    pub fn to_smtp_connection(&self) -> (conn: SmtpConnection)
        ensures
            conn@ == fresh(),
    {
        SmtpConnection::new()
    }

    /// Puts a completed mail at the end of the queue.
    pub fn deliver(&mut self, mail: SmtpMail)
        ensures
            final(self)@ == enqueued(old(self)@, mail@),
    {
        self.queue.push(mail);
        proof {
            assert(final(self)@ =~= enqueued(old(self)@, mail@));
        }
    }

    /// Takes the oldest mail from the queue, if there is one.
    pub fn next(&mut self) -> (mail: Option<SmtpMail>)
        ensures
            mail_of(mail) == pulled(old(self)@).0,
            final(self)@ == pulled(old(self)@).1,
    {
        if self.queue.len() == 0 {
            None
        } else {
            let mail = self.queue.remove(0);
            proof {
                assert(final(self)@ =~= old(self)@.skip(1));
            }
            Some(mail)
        }
    }

    /// The number of mails that wait in the queue.
    pub fn pending(&self) -> (n: usize)
        ensures
            n == self@.len(),
    {
        self.queue.len()
    }

    /// Hands one input line to a session and queues the mail that the line
    /// completed, if any. Returns the reply line.
    pub fn feed(&mut self, conn: &mut SmtpConnection, line: &str) -> (reply: Option<String>)
        ensures
            final(conn)@ == step(old(conn)@, line@).0,
            text_of(reply) == step(old(conn)@, line@).1.reply,
            final(self)@ == delivered(old(self)@, step(old(conn)@, line@).1.mail),
    {
        let out = conn.line_received(line);
        match out.mail {
            Some(mail) => self.deliver(mail),
            None => {},
        }
        out.reply
    }
}

} // verus!
