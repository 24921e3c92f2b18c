//! A small mail-submission protocol engine: a per-connection session that
//! reads one line at a time, the replies it gives, and the queue on which
//! completed mails wait for their consumer.

pub mod laws;
pub mod server;
pub mod session;
pub mod text;

pub use server::SmtpServer;

pub use session::{Outcome, SmtpConnection, SmtpMail, SmtpState};
