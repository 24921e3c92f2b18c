use smtpd::{SmtpMail, SmtpServer};

fn mail(n: usize) -> SmtpMail {
    SmtpMail {
        from: format!("from{}@example.com", n),
        rcpt: format!("to{}@example.com", n),
        message_body: format!("body {}\n", n),
    }
}

#[test]
fn new_server_has_nothing_queued() {
    let mut server = SmtpServer::new();
    assert_eq!(server.pending(), 0);
    assert!(server.next().is_none());
    assert_eq!(server.pending(), 0);
}

#[test]
fn mails_come_out_once_each_in_the_order_they_went_in() {
    let mut server = SmtpServer::new();
    for n in 0..5 {
        server.deliver(mail(n));
        assert_eq!(server.pending(), n + 1);
    }
    for n in 0..5 {
        let got = server.next().unwrap();
        assert_eq!(got.from, format!("from{}@example.com", n));
        assert_eq!(got.rcpt, format!("to{}@example.com", n));
        assert_eq!(got.message_body, format!("body {}\n", n));
        assert_eq!(server.pending(), 4 - n);
    }
    assert!(server.next().is_none());
}

#[test]
fn pulls_between_deliveries_keep_the_order() {
    let mut server = SmtpServer::new();
    server.deliver(mail(1));
    server.deliver(mail(2));
    assert_eq!(server.next().unwrap().message_body, "body 1\n");
    server.deliver(mail(3));
    assert_eq!(server.next().unwrap().message_body, "body 2\n");
    assert_eq!(server.next().unwrap().message_body, "body 3\n");
    assert!(server.next().is_none());
}

#[test]
fn sessions_that_take_turns_deliver_every_mail_once() {
    let mut server = SmtpServer::new();
    let mut first = server.to_smtp_connection();
    let mut second = server.to_smtp_connection();
    let script = ["MAIL From:<S@x>", "RCPT To:<R@x>", "DATA", "text", "."];
    for line in script {
        server.feed(&mut first, &line.replace('x', "one"));
        server.feed(&mut second, &line.replace('x', "two"));
    }
    assert_eq!(server.pending(), 2);
    let a = server.next().unwrap();
    let b = server.next().unwrap();
    assert_eq!((a.from.as_str(), a.rcpt.as_str()), ("s@one", "r@one"));
    assert_eq!((b.from.as_str(), b.rcpt.as_str()), ("s@two", "r@two"));
    assert_eq!(a.message_body, "teonet\n");
    assert_eq!(b.message_body, "tetwot\n");
    assert!(server.next().is_none());
}

#[test]
fn feed_queues_nothing_for_lines_that_complete_no_mail() {
    let mut server = SmtpServer::new();
    let mut conn = server.to_smtp_connection();
    assert_eq!(server.feed(&mut conn, "HELO x"), Some("250 Hello x".to_string()));
    assert_eq!(server.feed(&mut conn, "DATA"), Some("354 End data with <CRLF>.<CRLF>".to_string()));
    assert_eq!(server.feed(&mut conn, "line"), None);
    assert_eq!(
        server.feed(&mut conn, "."),
        Some("503 Error: need MAIL and RCPT before the message".to_string())
    );
    assert_eq!(server.pending(), 0);
}
