use emailpipe::log_io::WriteAction;
use emailpipe::registry::MailboxRegistry;
use emailpipe::session::Session;
use emailpipe::smtp_stream::SmtpStream;

fn client_text(a: &WriteAction) -> &str {
    match a {
        WriteAction::ToClient(s) => s,
        _ => panic!("expected a client write"),
    }
}

fn target_write(a: &WriteAction) -> (u64, &str) {
    match a {
        WriteAction::ToTarget(t, s) => (*t, s),
        _ => panic!("expected a target write"),
    }
}

/// Replies to the client collected from one step.
fn replies(acts: &[WriteAction]) -> Vec<String> {
    acts.iter()
        .filter_map(|a| match a {
            WriteAction::ToClient(s) => Some(s.clone()),
            _ => None,
        })
        .collect()
}

#[test]
fn session_opens_with_the_greeting_banner() {
    let (_s, acts) = Session::new();
    assert_eq!(acts.len(), 1);
    assert_eq!(client_text(&acts[0]), "220 emailpipe.sh SMTP emailpipe\r\n");
}

#[test]
fn helo_draws_the_welcome_reply() {
    let reg: MailboxRegistry<u64> = MailboxRegistry::new();
    let (mut s, _) = Session::new();
    let mut p = SmtpStream::new();
    let acts = s.step(&reg, p.next("HELO x\r\n"));
    assert_eq!(replies(&acts), vec!["250 emailpipe.sh, welcome\r\n"]);
}

#[test]
fn rcpt_to_unregistered_user_draws_550() {
    let reg: MailboxRegistry<u64> = MailboxRegistry::new();
    let (mut s, _) = Session::new();
    let mut p = SmtpStream::new();
    let acts = s.step(&reg, p.next("RCPT TO:<bob@emailpipe.sh>\r\n"));
    assert_eq!(replies(&acts), vec!["550 no such user\r\n"]);
}

#[test]
fn malformed_addresses_draw_501() {
    let reg: MailboxRegistry<u64> = MailboxRegistry::new();
    let (mut s, _) = Session::new();
    let mut p = SmtpStream::new();
    let acts = s.step(&reg, p.next("MAIL FROM:<nodomain>\r\n"));
    assert_eq!(replies(&acts), vec!["501 bad syntax\r\n"]);
    let acts = s.step(&reg, p.next("RCPT TO:junk\r\n"));
    assert_eq!(replies(&acts), vec!["501 bad syntax\r\n"]);
}

#[test]
fn well_formed_mail_from_draws_250() {
    let reg: MailboxRegistry<u64> = MailboxRegistry::new();
    let (mut s, _) = Session::new();
    let mut p = SmtpStream::new();
    let acts = s.step(&reg, p.next("MAIL FROM:<alice@example.com>\r\n"));
    assert_eq!(replies(&acts), vec!["250 ok\r\n"]);
}

#[test]
fn unknown_command_draws_500() {
    let reg: MailboxRegistry<u64> = MailboxRegistry::new();
    let (mut s, _) = Session::new();
    let mut p = SmtpStream::new();
    let acts = s.step(&reg, p.next("EHLO x\r\n"));
    assert_eq!(replies(&acts), vec!["500 what?\r\n"]);
}

#[test]
fn quit_draws_221_and_ends_the_session() {
    let reg: MailboxRegistry<u64> = MailboxRegistry::new();
    let (mut s, _) = Session::new();
    let mut p = SmtpStream::new();
    let acts = s.step(&reg, p.next("QUIT\r\n"));
    assert_eq!(replies(&acts), vec!["221 bye\r\n"]);
    // further input changes nothing and is not interpreted
    let acts = s.step(&reg, p.next("HELO x\r\n"));
    assert!(acts.is_empty());
    let acts = s.step(&reg, p.next("RCPT TO:<bob@x>\r\n"));
    assert!(acts.is_empty());
}

#[test]
fn registered_rcpt_redirects_and_tees_the_whole_session() {
    let mut reg: MailboxRegistry<u64> = MailboxRegistry::new();
    reg.register(String::from("a1b2.c3d4"), 7);

    let (mut s, _) = Session::new();
    let mut p = SmtpStream::new();

    // a command before the redirect is only buffered on the log side
    let acts = s.step(&reg, p.next("HELO x\r\n"));
    assert_eq!(replies(&acts), vec!["250 emailpipe.sh, welcome\r\n"]);
    assert_eq!(acts.len(), 1);

    // the successful RCPT TO drains the buffer to the listener, then replies
    let acts = s.step(&reg, p.next("RCPT TO:<a1b2.c3d4@emailpipe.sh>\r\n"));
    assert_eq!(acts.len(), 3);
    let (t, text) = target_write(&acts[0]);
    assert_eq!(t, 7);
    assert_eq!(
        text,
        "220 emailpipe.sh SMTP emailpipe\r\n\
         >> HELO x\r\n\
         250 emailpipe.sh, welcome\r\n\
         >> RCPT TO:<a1b2.c3d4@emailpipe.sh>\r\n"
    );
    let (t, text) = target_write(&acts[1]);
    assert_eq!(t, 7);
    assert_eq!(text, "250 ok\r\n");
    assert_eq!(client_text(&acts[2]), "250 ok\r\n");

    // from now on every raw line is forwarded live, prefixed per line
    let acts = s.step(&reg, p.next("DATA\r\n"));
    let (t, text) = target_write(&acts[0]);
    assert_eq!(t, 7);
    assert_eq!(text, ">> DATA\r\n");
    assert_eq!(replies(&acts), vec!["354 End data with <CR><LF>.<CR><LF>\r\n"]);

    let acts = s.step(&reg, p.next("hello there\r\n"));
    assert_eq!(acts.len(), 1);
    let (t, text) = target_write(&acts[0]);
    assert_eq!(t, 7);
    assert_eq!(text, ">> hello there\r\n");

    let acts = s.step(&reg, p.next(".\r\n"));
    let (t, text) = target_write(&acts[0]);
    assert_eq!(t, 7);
    assert_eq!(text, ">> .\r\n");
    assert_eq!(replies(&acts), vec!["250 Ok: queued message\r\n"]);
}

#[test]
fn reissued_rcpt_repoints_without_replaying() {
    let mut reg: MailboxRegistry<u64> = MailboxRegistry::new();
    reg.register(String::from("a1b2.c3d4"), 7);
    reg.register(String::from("e5f6.g7h8"), 9);

    let (mut s, _) = Session::new();
    let mut p = SmtpStream::new();

    let acts = s.step(&reg, p.next("RCPT TO:<a1b2.c3d4@x>\r\n"));
    assert_eq!(acts.len(), 3);

    // the second RCPT TO redirects to the new listener: the raw line still
    // goes to the old target, but the buffer is not replayed to the new one
    let acts = s.step(&reg, p.next("RCPT TO:<e5f6.g7h8@x>\r\n"));
    assert_eq!(acts.len(), 3);
    let (t, _) = target_write(&acts[0]);
    assert_eq!(t, 7);
    let (t, text) = target_write(&acts[1]);
    assert_eq!(t, 9);
    assert_eq!(text, "250 ok\r\n");
    assert_eq!(client_text(&acts[2]), "250 ok\r\n");
}
