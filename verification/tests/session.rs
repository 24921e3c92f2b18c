use smtpd::{Outcome, SmtpConnection, SmtpServer};

fn reply_of(conn: &mut SmtpConnection, line: &str) -> Option<String> {
    conn.line_received(line).reply
}

fn text(s: &str) -> Option<String> {
    Some(s.to_string())
}

fn in_data_with(sender: Option<&str>, recipient: Option<&str>) -> SmtpConnection {
    let mut conn = SmtpConnection::new();
    if let Some(s) = sender {
        assert_eq!(reply_of(&mut conn, &format!("MAIL From:<{}>", s)), text("250 OK"));
    }
    if let Some(r) = recipient {
        assert_eq!(reply_of(&mut conn, &format!("RCPT To:<{}>", r)), text("250 OK"));
    }
    assert_eq!(reply_of(&mut conn, "DATA"), text("354 End data with <CRLF>.<CRLF>"));
    conn
}

#[test]
fn new_session_is_empty_and_reads_commands() {
    let conn = SmtpConnection::new();
    assert_eq!(conn.hostname(), None);
    assert_eq!(conn.sender(), None);
    assert_eq!(conn.recipient(), None);
    assert_eq!(conn.body(), "");
    assert!(!conn.is_closed());
    assert!(!conn.in_data());
}

#[test]
fn greeting_is_the_banner() {
    assert_eq!(SmtpConnection::greeting(), "220 Rust smtpd v0.1.0");
}

#[test]
fn noop_alone_is_ok_and_with_argument_is_refused() {
    let mut conn = SmtpConnection::new();
    assert_eq!(reply_of(&mut conn, "NOOP extra"), text("501 Syntax: NOOP"));
    assert_eq!(reply_of(&mut conn, "NOOP"), text("250 OK"));
    assert_eq!(reply_of(&mut conn, "NOOP   "), text("250 OK"));
}

#[test]
fn mail_with_wrong_keyword_is_refused_and_sender_stays_unset() {
    let mut conn = SmtpConnection::new();
    assert_eq!(
        reply_of(&mut conn, "MAIL Sender:<x@y.com>"),
        text("501 Syntax: MAIL From: <address>")
    );
    assert_eq!(conn.sender(), None);
}

#[test]
fn rcpt_with_wrong_keyword_is_refused_and_recipient_stays_unset() {
    let mut conn = SmtpConnection::new();
    assert_eq!(reply_of(&mut conn, "RCPT <x@y.com>"), text("501 Syntax: RCPT To: <address>"));
    assert_eq!(reply_of(&mut conn, "RCPT"), text("501 Syntax: RCPT To: <address>"));
    assert_eq!(conn.recipient(), None);
}

#[test]
fn whole_session_hands_out_one_mail() {
    let mut server = SmtpServer::new();
    let mut conn = server.to_smtp_connection();
    let lines = [
        "HELO client.example",
        "MAIL From:<a@b.com>",
        "RCPT To:<c@d.com>",
        "DATA",
        "hello",
        "world",
        ".",
        "QUIT",
    ];
    let mut replies: Vec<String> = Vec::new();
    for line in lines {
        if let Some(reply) = server.feed(&mut conn, line) {
            replies.push(reply);
        }
    }
    assert_eq!(
        replies,
        vec![
            "250 Hello client.example".to_string(),
            "250 OK".to_string(),
            "250 OK".to_string(),
            "354 End data with <CRLF>.<CRLF>".to_string(),
            "250 OK".to_string(),
            "221 Have a nice day!".to_string(),
        ]
    );
    assert!(conn.is_closed());
    assert_eq!(server.pending(), 1);
    let mail = server.next().unwrap();
    assert_eq!(mail.from, "a@b.com");
    assert_eq!(mail.rcpt, "c@d.com");
    assert_eq!(mail.message_body, "hello\nworld\n");
    assert!(server.next().is_none());
}

#[test]
fn helo_stores_the_name_and_needs_one() {
    let mut conn = SmtpConnection::new();
    assert_eq!(reply_of(&mut conn, "HELO"), text("501 Syntax: HELO hostname"));
    assert_eq!(reply_of(&mut conn, "EHLO    "), text("501 Syntax: HELO hostname"));
    assert_eq!(conn.hostname(), None);
    assert_eq!(reply_of(&mut conn, "EHLO  Two  Words "), text("250 Hello Two  Words"));
    assert_eq!(conn.hostname(), Some("Two  Words"));
    assert!(!conn.in_data());
}

#[test]
fn commands_are_matched_in_any_case() {
    let mut conn = SmtpConnection::new();
    assert_eq!(reply_of(&mut conn, "helo x"), text("250 Hello x"));
    assert_eq!(reply_of(&mut conn, "mAiL fRoM:<a@b>"), text("250 OK"));
    assert_eq!(reply_of(&mut conn, "rcpt to:<c@d>"), text("250 OK"));
    assert_eq!(reply_of(&mut conn, "rset"), text("250 OK"));
    assert_eq!(reply_of(&mut conn, "data"), text("354 End data with <CRLF>.<CRLF>"));
    assert_eq!(reply_of(&mut conn, "."), text("503 Error: need MAIL and RCPT before the message"));
    assert_eq!(reply_of(&mut conn, "quit"), text("221 Have a nice day!"));
}

#[test]
fn command_case_follows_unicode() {
    let mut conn = SmtpConnection::new();
    assert_eq!(reply_of(&mut conn, "ma\u{131}l From:<a@b>"), text("250 OK"));
    assert_eq!(conn.sender(), Some("a@b"));
}

#[test]
fn sender_is_lowercased_and_stripped() {
    let mut conn = SmtpConnection::new();
    assert_eq!(reply_of(&mut conn, "MAIL   FROM:   < Alice@Example.COM >  "), text("250 OK"));
    assert_eq!(conn.sender(), Some("alice@example.com"));
    assert_eq!(reply_of(&mut conn, "MAIL From:Bob@Example.org"), text("250 OK"));
    assert_eq!(conn.sender(), Some("bob@example.org"));
    assert_eq!(reply_of(&mut conn, "MAIL from:<<C@D>>"), text("250 OK"));
    assert_eq!(conn.sender(), Some("c@d"));
    assert_eq!(reply_of(&mut conn, "MAIL From:<>"), text("250 OK"));
    assert_eq!(conn.sender(), Some(""));
    assert_eq!(conn.recipient(), None);
}

#[test]
fn recipient_is_lowercased_and_stripped() {
    let mut conn = SmtpConnection::new();
    assert_eq!(reply_of(&mut conn, "RCPT TO: <Carol@Example.NET>"), text("250 OK"));
    assert_eq!(conn.recipient(), Some("carol@example.net"));
    assert_eq!(conn.sender(), None);
}

#[test]
fn repeated_keyword_is_stripped_each_time() {
    let mut conn = SmtpConnection::new();
    assert_eq!(reply_of(&mut conn, "MAIL From:from:<a@b>"), text("250 OK"));
    assert_eq!(conn.sender(), Some("a@b"));
}

#[test]
fn unknown_command_is_answered_with_the_token_as_written() {
    let mut conn = SmtpConnection::new();
    assert_eq!(reply_of(&mut conn, "Frob nicate"), text("500 Error: Unknown command 'Frob'"));
    assert_eq!(reply_of(&mut conn, "VRFY"), text("500 Error: Unknown command 'VRFY'"));
    assert_eq!(reply_of(&mut conn, "HELO\tx"), text("500 Error: Unknown command 'HELO\tx'"));
    assert!(!conn.is_closed());
    assert!(!conn.in_data());
}

#[test]
fn empty_line_is_an_unknown_command_with_an_empty_token() {
    let mut conn = SmtpConnection::new();
    assert_eq!(reply_of(&mut conn, ""), text("500 Error: Unknown command ''"));
    assert_eq!(reply_of(&mut conn, " HELO x"), text("500 Error: Unknown command ''"));
}

#[test]
fn rset_clears_the_mail_in_progress() {
    let mut conn = SmtpConnection::new();
    reply_of(&mut conn, "HELO me");
    reply_of(&mut conn, "MAIL From:<a@b>");
    reply_of(&mut conn, "RCPT To:<c@d>");
    assert_eq!(reply_of(&mut conn, "RSET"), text("250 OK"));
    assert_eq!(conn.sender(), None);
    assert_eq!(conn.recipient(), None);
    assert_eq!(conn.body(), "");
    assert_eq!(conn.hostname(), Some("me"));
    assert!(!conn.in_data());
    assert_eq!(reply_of(&mut conn, "RSET ignored argument"), text("250 OK"));
}

#[test]
fn rset_among_message_lines_is_content() {
    let mut conn = in_data_with(Some("a@b"), Some("c@d"));
    let out = conn.line_received("RSET");
    assert_eq!(out.reply, None);
    assert!(out.mail.is_none());
    assert_eq!(conn.body(), "RSET\n");
    assert_eq!(conn.sender(), Some("a@b"));
}

#[test]
fn data_is_accepted_before_mail_and_rcpt() {
    let mut conn = SmtpConnection::new();
    assert_eq!(reply_of(&mut conn, "DATA"), text("354 End data with <CRLF>.<CRLF>"));
    assert!(conn.in_data());
}

#[test]
fn message_lines_are_appended_without_reply() {
    let mut conn = in_data_with(Some("a@b"), Some("c@d"));
    for (line, body) in [("one", "one\n"), ("", "one\n\n"), (" .", "one\n\n .\n"), ("..", "one\n\n .\n..\n")] {
        let out = conn.line_received(line);
        assert_eq!(out.reply, None);
        assert!(out.mail.is_none());
        assert_eq!(conn.body(), body);
        assert!(conn.in_data());
    }
    let out = conn.line_received(".");
    assert_eq!(out.reply, text("250 OK"));
    let mail = out.mail.unwrap();
    assert_eq!(mail.message_body, "one\n\n .\n..\n");
    assert!(!mail.message_body.ends_with(".\n.\n"));
}

#[test]
fn terminator_resets_the_session_for_the_next_mail() {
    let mut conn = in_data_with(Some("a@b"), Some("c@d"));
    conn.line_received("first");
    let first = conn.line_received(".").mail.unwrap();
    assert_eq!(first.message_body, "first\n");
    assert!(!conn.in_data());
    assert_eq!(conn.sender(), None);
    assert_eq!(conn.recipient(), None);
    assert_eq!(conn.body(), "");
    reply_of(&mut conn, "MAIL From:<e@f>");
    reply_of(&mut conn, "RCPT To:<g@h>");
    reply_of(&mut conn, "DATA");
    conn.line_received("second");
    let second = conn.line_received(".").mail.unwrap();
    assert_eq!(second.from, "e@f");
    assert_eq!(second.rcpt, "g@h");
    assert_eq!(second.message_body, "second\n");
}

#[test]
fn empty_message_has_an_empty_body() {
    let mut conn = in_data_with(Some("a@b"), Some("c@d"));
    let mail = conn.line_received(".").mail.unwrap();
    assert_eq!(mail.from, "a@b");
    assert_eq!(mail.rcpt, "c@d");
    assert_eq!(mail.message_body, "");
}

#[test]
fn terminator_without_sender_or_recipient_is_refused() {
    for (sender, recipient) in [(None, None), (Some("a@b"), None), (None, Some("c@d"))] {
        let mut conn = in_data_with(sender, recipient);
        conn.line_received("text");
        let out = conn.line_received(".");
        assert_eq!(out.reply, text("503 Error: need MAIL and RCPT before the message"));
        assert!(out.mail.is_none());
        assert!(!conn.in_data());
        assert!(!conn.is_closed());
        assert_eq!(conn.sender(), None);
        assert_eq!(conn.recipient(), None);
        assert_eq!(conn.body(), "");
    }
}

#[test]
fn quit_closes_and_a_closed_session_takes_nothing() {
    let mut conn = SmtpConnection::new();
    reply_of(&mut conn, "MAIL From:<a@b>");
    assert_eq!(reply_of(&mut conn, "QUIT now"), text("221 Have a nice day!"));
    assert!(conn.is_closed());
    for line in ["HELO x", "RSET", "DATA", ".", "QUIT"] {
        let out = conn.line_received(line);
        assert_eq!(out.reply, None);
        assert!(out.mail.is_none());
        assert!(conn.is_closed());
        assert_eq!(conn.sender(), Some("a@b"));
        assert_eq!(conn.hostname(), None);
    }
}

#[test]
fn command_received_goes_by_the_forms_it_is_given() {
    let mut conn = SmtpConnection::new();
    let out = conn.command_received("tok", "MAIL", "whatever", "from: <x@y> ");
    assert_eq!(out.reply, text("250 OK"));
    assert_eq!(conn.sender(), Some("x@y"));
    let out = conn.command_received("tok", "mail", "From:<x@y>", "from:<x@y>");
    assert_eq!(out.reply, text("500 Error: Unknown command 'tok'"));
    let out = conn.command_received("tok", "RCPT", "to:<p@q>", "TO:<p@q>");
    assert_eq!(out.reply, text("501 Syntax: RCPT To: <address>"));
    assert_eq!(conn.recipient(), None);
    let out = conn.command_received("tok", "HELO", "Name", "name");
    assert_eq!(out.reply, text("250 Hello Name"));
    assert_eq!(conn.hostname(), Some("Name"));
}

#[test]
fn data_received_takes_content_in_any_phase() {
    let mut conn = SmtpConnection::new();
    let out = conn.data_received("line");
    assert_eq!(out.reply, None);
    assert_eq!(conn.body(), "line\n");
}

#[test]
fn outcomes_are_built_as_named() {
    let said = Outcome::say("250 OK".to_string());
    assert_eq!(said.reply, text("250 OK"));
    assert!(said.mail.is_none());
    let silent = Outcome::silent();
    assert_eq!(silent.reply, None);
    assert!(silent.mail.is_none());
}
