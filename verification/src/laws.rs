//! What holds of the session and the queue for every input.

use crate::server::{enqueued, pulled};
use crate::session::{
    argument_of, cleared, say, silent, step, token_of, MailView, SessionView, SmtpState,
};
use crate::text::{
    address_of, drop_leading, drop_prefixes, drop_trailing, lowercase_of, trimmed, uppercase_of,
    Strip,
};
use vstd::prelude::*;

verus! {

/// Every character of `s` belongs to the class.
pub open spec fn all_match(s: Seq<char>, what: Strip) -> bool {
    forall|i: int| 0 <= i < s.len() ==> what.matches(#[trigger] s[i])
}

/// `s` neither begins nor ends with a character of the class.
pub open spec fn bare(s: Seq<char>, what: Strip) -> bool {
    s.len() > 0 ==> !what.matches(s[0]) && !what.matches(s.last())
}

/// Leading characters of the class do not change what `drop_leading` gives.
pub proof fn lemma_drop_leading_pad(pad: Seq<char>, rest: Seq<char>, what: Strip)
    requires
        all_match(pad, what),
    ensures
        drop_leading(pad + rest, what) == drop_leading(rest, what),
    decreases pad.len(),
{
    if pad.len() == 0 {
        assert(pad + rest =~= rest);
    } else {
        let s = pad + rest;
        assert(s[0] == pad[0]);
        assert(s.skip(1) =~= pad.skip(1) + rest);
        assert forall|i: int| 0 <= i < pad.skip(1).len() implies what.matches(
            #[trigger] pad.skip(1)[i],
        ) by {
            assert(pad.skip(1)[i] == pad[i + 1]);
        }
        lemma_drop_leading_pad(pad.skip(1), rest, what);
    }
}

/// Trailing characters of the class do not change what `drop_trailing` gives.
pub proof fn lemma_drop_trailing_pad(rest: Seq<char>, pad: Seq<char>, what: Strip)
    requires
        all_match(pad, what),
    ensures
        drop_trailing(rest + pad, what) == drop_trailing(rest, what),
    decreases pad.len(),
{
    if pad.len() == 0 {
        assert(rest + pad =~= rest);
    } else {
        let s = rest + pad;
        assert(s.last() == pad.last());
        assert(s.drop_last() =~= rest + pad.drop_last());
        assert forall|i: int| 0 <= i < pad.drop_last().len() implies what.matches(
            #[trigger] pad.drop_last()[i],
        ) by {
            assert(pad.drop_last()[i] == pad[i]);
        }
        lemma_drop_trailing_pad(rest, pad.drop_last(), what);
    }
}

/// Trimming gives back a text that was framed by characters of the class,
/// where the text itself neither begins nor ends with one.
pub proof fn lemma_trimmed_framed(lead: Seq<char>, core: Seq<char>, trail: Seq<char>, what: Strip)
    requires
        all_match(lead, what),
        all_match(trail, what),
        bare(core, what),
    ensures
        trimmed(lead + core + trail, what) == core,
{
    assert(lead + core + trail =~= lead + (core + trail));
    lemma_drop_leading_pad(lead, core + trail, what);
    if core.len() > 0 {
        assert((core + trail)[0] == core[0]);
        assert(drop_leading(core + trail, what) == core + trail);
        lemma_drop_trailing_pad(core, trail, what);
    } else {
        assert(core + trail =~= trail + Seq::<char>::empty());
        lemma_drop_leading_pad(trail, Seq::<char>::empty(), what);
        assert(core =~= Seq::<char>::empty());
    }
}

/// The address of a lowercased argument is what stands between the angle
/// brackets, however much whitespace surrounds the brackets or the address:
/// for an argument made of the keyword, whitespace, `<`, whitespace, the
/// address, whitespace, `>` and whitespace, where the address neither begins
/// nor ends with whitespace or an angle bracket.
pub proof fn law_address_between_brackets(
    keyword: Seq<char>,
    pad1: Seq<char>,
    pad2: Seq<char>,
    addr: Seq<char>,
    pad3: Seq<char>,
    pad4: Seq<char>,
)
    requires
        keyword.len() > 0,
        !Strip::Whitespace.matches(keyword[0]),
        !Strip::AngleBrackets.matches(keyword[0]),
        all_match(pad1, Strip::Whitespace),
        all_match(pad2, Strip::Whitespace),
        all_match(pad3, Strip::Whitespace),
        all_match(pad4, Strip::Whitespace),
        bare(addr, Strip::Whitespace),
        bare(addr, Strip::AngleBrackets),
    ensures
        address_of(keyword + pad1 + seq!['<'] + pad2 + addr + pad3 + seq!['>'] + pad4, keyword)
            == addr,
{
    let inner = pad2 + addr + pad3;
    let framed = seq!['<'] + inner + seq!['>'];
    let rest = pad1 + framed + pad4;
    let lower = keyword + pad1 + seq!['<'] + pad2 + addr + pad3 + seq!['>'] + pad4;
    assert(lower =~= keyword + rest);
    assert(keyword.is_prefix_of(lower)) by {
        assert(lower.subrange(0, keyword.len() as int) =~= keyword);
    }
    assert(lower.skip(keyword.len() as int) =~= rest);
    assert(rest[0] != keyword[0]) by {
        if pad1.len() > 0 {
            assert(rest[0] == pad1[0]);
        } else {
            assert(rest[0] == '<');
        }
    }
    assert(!keyword.is_prefix_of(rest)) by {
        if keyword.is_prefix_of(rest) {
            assert(rest.subrange(0, keyword.len() as int)[0] == keyword[0]);
        }
    }
    assert(drop_prefixes(rest, keyword) == rest);
    assert(drop_prefixes(lower, keyword) == rest);
    assert(!Strip::Whitespace.matches('<') && !Strip::Whitespace.matches('>'));
    assert(framed[0] == '<' && framed.last() == '>');
    lemma_trimmed_framed(pad1, framed, pad4, Strip::Whitespace);
    assert(inner.len() > 0 ==> !Strip::AngleBrackets.matches(inner[0])
        && !Strip::AngleBrackets.matches(inner.last())) by {
        if inner.len() > 0 {
            if pad2.len() > 0 {
                assert(inner[0] == pad2[0]);
            } else if addr.len() > 0 {
                assert(inner[0] == addr[0]);
            } else {
                assert(inner[0] == pad3[0]);
            }
            if pad3.len() > 0 {
                assert(inner.last() == pad3.last());
            } else if addr.len() > 0 {
                assert(inner.last() == addr.last());
            } else {
                assert(inner.last() == pad2.last());
            }
        }
    }
    assert(all_match(seq!['<'], Strip::AngleBrackets));
    assert(all_match(seq!['>'], Strip::AngleBrackets));
    lemma_trimmed_framed(seq!['<'], inner, seq!['>'], Strip::AngleBrackets);
    lemma_trimmed_framed(pad2, addr, pad3, Strip::Whitespace);
}

/// An argument in its usual shape: the keyword, whitespace, `<`, whitespace,
/// the address, whitespace, `>` and whitespace.
pub open spec fn bracketed(
    keyword: Seq<char>,
    pad1: Seq<char>,
    pad2: Seq<char>,
    addr: Seq<char>,
    pad3: Seq<char>,
    pad4: Seq<char>,
) -> Seq<char> {
    keyword + pad1 + seq!['<'] + pad2 + addr + pad3 + seq!['>'] + pad4
}

/// Whether an uppercased token is one of the eight commands.
pub open spec fn is_known(upper: Seq<char>) -> bool {
    ||| upper == "HELO"@
    ||| upper == "EHLO"@
    ||| upper == "MAIL"@
    ||| upper == "RCPT"@
    ||| upper == "DATA"@
    ||| upper == "NOOP"@
    ||| upper == "RSET"@
    ||| upper == "QUIT"@
}

/// The eight command words are eight different texts.
pub proof fn lemma_commands_differ()
    ensures
        "EHLO"@ != "HELO"@,
        "MAIL"@ != "HELO"@ && "MAIL"@ != "EHLO"@,
        "RCPT"@ != "HELO"@ && "RCPT"@ != "EHLO"@ && "RCPT"@ != "MAIL"@,
        "DATA"@ != "HELO"@ && "DATA"@ != "EHLO"@ && "DATA"@ != "MAIL"@ && "DATA"@ != "RCPT"@,
        "NOOP"@ != "HELO"@ && "NOOP"@ != "EHLO"@ && "NOOP"@ != "MAIL"@ && "NOOP"@ != "RCPT"@
            && "NOOP"@ != "DATA"@,
        "RSET"@ != "HELO"@ && "RSET"@ != "EHLO"@ && "RSET"@ != "MAIL"@ && "RSET"@ != "RCPT"@
            && "RSET"@ != "DATA"@ && "RSET"@ != "NOOP"@,
        "QUIT"@ != "HELO"@ && "QUIT"@ != "EHLO"@ && "QUIT"@ != "MAIL"@ && "QUIT"@ != "RCPT"@
            && "QUIT"@ != "DATA"@ && "QUIT"@ != "NOOP"@ && "QUIT"@ != "RSET"@,
{
    reveal_strlit("HELO");
    reveal_strlit("EHLO");
    reveal_strlit("MAIL");
    reveal_strlit("RCPT");
    reveal_strlit("DATA");
    reveal_strlit("NOOP");
    reveal_strlit("RSET");
    reveal_strlit("QUIT");
    assert("HELO"@[0] == 'H' && "EHLO"@[0] == 'E' && "MAIL"@[0] == 'M' && "RCPT"@[0] == 'R');
    assert("DATA"@[0] == 'D' && "NOOP"@[0] == 'N' && "RSET"@[0] == 'R' && "QUIT"@[0] == 'Q');
    assert("RCPT"@[1] == 'C' && "RSET"@[1] == 'S');
}

/// A `MAIL` command whose lowercased argument has the usual shape stores the
/// address as the sender and is answered with `250 OK`, whatever whitespace
/// surrounds the brackets or the address.
pub proof fn law_mail_stores_sender(
    s: SessionView,
    line: Seq<char>,
    pad1: Seq<char>,
    pad2: Seq<char>,
    addr: Seq<char>,
    pad3: Seq<char>,
    pad4: Seq<char>,
)
    requires
        s.state is Command,
        uppercase_of(token_of(line)) == "MAIL"@,
        lowercase_of(argument_of(line)) == bracketed("from:"@, pad1, pad2, addr, pad3, pad4),
        all_match(pad1, Strip::Whitespace),
        all_match(pad2, Strip::Whitespace),
        all_match(pad3, Strip::Whitespace),
        all_match(pad4, Strip::Whitespace),
        bare(addr, Strip::Whitespace),
        bare(addr, Strip::AngleBrackets),
    ensures
        step(s, line).0 == (SessionView { mailfrom: Some(addr), ..s }),
        step(s, line).1 == say("250 OK"@),
{
    lemma_commands_differ();
    reveal_strlit("from:");
    let lower = bracketed("from:"@, pad1, pad2, addr, pad3, pad4);
    assert("from:"@[0] == 'f');
    law_address_between_brackets("from:"@, pad1, pad2, addr, pad3, pad4);
    assert("from:"@.is_prefix_of(lower)) by {
        assert(lower.subrange(0, 5) =~= "from:"@);
    }
}

/// A `RCPT` command whose lowercased argument has the usual shape stores the
/// address as the recipient and is answered with `250 OK`.
pub proof fn law_rcpt_stores_recipient(
    s: SessionView,
    line: Seq<char>,
    pad1: Seq<char>,
    pad2: Seq<char>,
    addr: Seq<char>,
    pad3: Seq<char>,
    pad4: Seq<char>,
)
    requires
        s.state is Command,
        uppercase_of(token_of(line)) == "RCPT"@,
        lowercase_of(argument_of(line)) == bracketed("to:"@, pad1, pad2, addr, pad3, pad4),
        all_match(pad1, Strip::Whitespace),
        all_match(pad2, Strip::Whitespace),
        all_match(pad3, Strip::Whitespace),
        all_match(pad4, Strip::Whitespace),
        bare(addr, Strip::Whitespace),
        bare(addr, Strip::AngleBrackets),
    ensures
        step(s, line).0 == (SessionView { rcpt: Some(addr), ..s }),
        step(s, line).1 == say("250 OK"@),
{
    lemma_commands_differ();
    reveal_strlit("to:");
    let lower = bracketed("to:"@, pad1, pad2, addr, pad3, pad4);
    assert("to:"@[0] == 't');
    law_address_between_brackets("to:"@, pad1, pad2, addr, pad3, pad4);
    assert("to:"@.is_prefix_of(lower)) by {
        assert(lower.subrange(0, 3) =~= "to:"@);
    }
}

/// A command whose argument does not begin with the keyword, in whatever
/// case, is refused and leaves the session as it was.
pub proof fn law_wrong_keyword_refused(s: SessionView, line: Seq<char>)
    requires
        s.state is Command,
    ensures
        uppercase_of(token_of(line)) == "MAIL"@ && !"from:"@.is_prefix_of(
            lowercase_of(argument_of(line)),
        ) ==> step(s, line) == (s, say("501 Syntax: MAIL From: <address>"@)),
        uppercase_of(token_of(line)) == "RCPT"@ && !"to:"@.is_prefix_of(
            lowercase_of(argument_of(line)),
        ) ==> step(s, line) == (s, say("501 Syntax: RCPT To: <address>"@)),
{
    lemma_commands_differ();
}

/// A token that is none of the eight commands, in whatever case, is answered
/// with the token as it was written, and the session stays as it was.
pub proof fn law_unknown_command(s: SessionView, line: Seq<char>)
    requires
        s.state is Command,
        !is_known(uppercase_of(token_of(line))),
    ensures
        step(s, line) == (s, say("500 Error: Unknown command '"@ + token_of(line) + "'"@)),
{
}

/// While commands are read, `RSET` discards sender, recipient and body, keeps
/// the rest of the session, and is answered with `250 OK`.
pub proof fn law_rset_clears(s: SessionView, line: Seq<char>)
    requires
        s.state is Command,
        uppercase_of(token_of(line)) == "RSET"@,
    ensures
        step(s, line).0 == cleared(s),
        step(s, line).0.mailfrom is None,
        step(s, line).0.rcpt is None,
        step(s, line).0.message.len() == 0,
        step(s, line).0.state is Command,
        step(s, line).1 == say("250 OK"@),
{
    lemma_commands_differ();
}

/// While commands are read, `QUIT` is answered with `221 Have a nice day!` and
/// closes the session; a closed session takes no line: it stays as it is,
/// answers nothing and hands out no mail.
pub proof fn law_quit_closes(s: SessionView, line: Seq<char>, later: Seq<char>)
    requires
        s.state is Command,
        uppercase_of(token_of(line)) == "QUIT"@,
    ensures
        step(s, line).0 == (SessionView { state: SmtpState::Quit, ..s }),
        step(s, line).1 == say("221 Have a nice day!"@),
        step(step(s, line).0, later) == (step(s, line).0, silent()),
{
    lemma_commands_differ();
}

/// A mail is handed out by the terminator of a message whose sender and
/// recipient are both known, and by no other line; it carries that sender,
/// that recipient and the body as it stood before the terminator.
pub proof fn law_mail_only_when_complete(s: SessionView, line: Seq<char>)
    ensures
        step(s, line).1.mail is Some <==> s.state is Data && line == "."@ && s.mailfrom is Some
            && s.rcpt is Some,
        step(s, line).1.mail is Some ==> step(s, line).1.mail == Some(
            MailView { from: s.mailfrom->0, rcpt: s.rcpt->0, message_body: s.message },
        ),
{
}

/// While commands are read, every line is answered and none hands out a
/// mail; only `DATA` and `QUIT` leave the phase, and only `RSET` changes the
/// body.
pub proof fn law_commands_are_answered(s: SessionView, line: Seq<char>)
    requires
        s.state is Command,
    ensures
        step(s, line).1.reply is Some,
        step(s, line).1.mail is None,
        step(s, line).0.state is Data <==> uppercase_of(token_of(line)) == "DATA"@,
        step(s, line).0.state is Quit <==> uppercase_of(token_of(line)) == "QUIT"@,
        step(s, line).0.message == s.message || uppercase_of(token_of(line)) == "RSET"@,
{
    lemma_commands_differ();
}

/// The session after a run of input lines.
pub open spec fn run(s: SessionView, lines: Seq<Seq<char>>) -> SessionView
    decreases lines.len(),
{
    if lines.len() == 0 {
        s
    } else {
        step(run(s, lines.drop_last()), lines.last()).0
    }
}

/// The lines in order, each followed by a newline.
pub open spec fn joined(lines: Seq<Seq<char>>) -> Seq<char>
    decreases lines.len(),
{
    if lines.len() == 0 {
        Seq::empty()
    } else {
        joined(lines.drop_last()) + lines.last() + "\n"@
    }
}

/// A line of message content that is not the terminator is appended to the
/// body with a newline; nothing else changes, and nothing is answered or
/// handed out.
pub proof fn law_body_line_appends(s: SessionView, line: Seq<char>)
    requires
        s.state is Data,
        line != "."@,
    ensures
        step(s, line).0 == (SessionView { message: s.message + line + "\n"@, ..s }),
        s.message.is_prefix_of(step(s, line).0.message),
        step(s, line).1 == silent(),
{
    let m = s.message + line + "\n"@;
    assert(m.subrange(0, s.message.len() as int) =~= s.message);
}

/// Lines of message content, none of them the terminator, are appended to the
/// body in order, and the terminator after them hands out a mail whose body
/// is the body before it: the terminator is no part of it.
pub proof fn law_body_append_only(s: SessionView, lines: Seq<Seq<char>>)
    requires
        s.state is Data,
        forall|i: int| 0 <= i < lines.len() ==> lines[i] != "."@,
    ensures
        run(s, lines) == (SessionView { message: s.message + joined(lines), ..s }),
        s.mailfrom is Some && s.rcpt is Some ==> step(run(s, lines), "."@).1.mail == Some(
            MailView {
                from: s.mailfrom->0,
                rcpt: s.rcpt->0,
                message_body: s.message + joined(lines),
            },
        ),
        step(run(s, lines), "."@).0 == (SessionView { state: SmtpState::Command, ..cleared(s) }),
    decreases lines.len(),
{
    if lines.len() == 0 {
        assert(s.message + joined(lines) =~= s.message);
    } else {
        let front = lines.drop_last();
        law_body_append_only(s, front);
        assert(lines.last() == lines[lines.len() - 1]);
        assert((s.message + joined(front)) + lines.last() + "\n"@ =~= s.message + joined(lines));
    }
}

/// The queue after the mails have joined it one by one.
pub open spec fn enqueued_all(q: Seq<MailView>, mails: Seq<MailView>) -> Seq<MailView>
    decreases mails.len(),
{
    if mails.len() == 0 {
        q
    } else {
        enqueued(enqueued_all(q, mails.drop_last()), mails.last())
    }
}

/// What `n` pulls take from the queue, in the order of the pulls, and what
/// they leave.
pub open spec fn pulled_all(q: Seq<MailView>, n: nat) -> (Seq<MailView>, Seq<MailView>)
    decreases n,
{
    if n == 0 {
        (Seq::empty(), q)
    } else {
        let before = pulled_all(q, (n - 1) as nat);
        match pulled(before.1).0 {
            Some(m) => (before.0.push(m), pulled(before.1).1),
            None => before,
        }
    }
}

/// Joining one by one is appending.
pub proof fn lemma_enqueued_all(q: Seq<MailView>, mails: Seq<MailView>)
    ensures
        enqueued_all(q, mails) == q + mails,
    decreases mails.len(),
{
    if mails.len() == 0 {
        assert(q + mails =~= q);
    } else {
        lemma_enqueued_all(q, mails.drop_last());
        assert((q + mails.drop_last()).push(mails.last()) =~= q + mails);
    }
}

/// Pulls take the oldest mails, oldest first.
pub proof fn lemma_pulled_all(q: Seq<MailView>, n: nat)
    requires
        n <= q.len(),
    ensures
        pulled_all(q, n) == (q.take(n as int), q.skip(n as int)),
    decreases n,
{
    if n == 0 {
        assert(q.take(0) =~= Seq::<MailView>::empty());
        assert(q.skip(0) =~= q);
    } else {
        lemma_pulled_all(q, (n - 1) as nat);
        let rest = q.skip(n - 1);
        assert(rest[0] == q[n - 1]);
        assert(q.take(n - 1).push(q[n - 1]) =~= q.take(n as int));
        assert(rest.skip(1) =~= q.skip(n as int));
    }
}

/// The queue loses nothing, doubles nothing and keeps the order: after the
/// mails have joined an empty queue, as many pulls give exactly those mails,
/// oldest first, as one multiset, and the pull after them finds nothing.
pub proof fn law_queue_preserves(mails: Seq<MailView>)
    ensures
        pulled_all(enqueued_all(Seq::empty(), mails), mails.len()) == (
            mails,
            Seq::<MailView>::empty(),
        ),
        pulled_all(enqueued_all(Seq::empty(), mails), mails.len()).0.to_multiset()
            == mails.to_multiset(),
        pulled(pulled_all(enqueued_all(Seq::empty(), mails), mails.len()).1).0 is None,
{
    let q = enqueued_all(Seq::empty(), mails);
    lemma_enqueued_all(Seq::empty(), mails);
    assert(Seq::<MailView>::empty() + mails =~= mails);
    lemma_pulled_all(q, mails.len());
    assert(q.take(mails.len() as int) =~= mails);
    assert(q.skip(mails.len() as int) =~= Seq::<MailView>::empty());
}

} // verus!
