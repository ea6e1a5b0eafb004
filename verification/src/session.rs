//! The SMTP session handler: drives one connection, one parsed command at a
//! time.  Each step first records the raw line through the relay writer's log
//! side, then answers the command, looking mailboxes up in the registry and
//! redirecting the relay writer on a successful `RCPT TO`.
//!
//! The handler performs no I/O itself: each step returns the write actions
//! the caller must carry out, in order.  After `QUIT` the session is done and
//! every further step is a no-op — remaining input is not interpreted.

use vstd::prelude::*;

use crate::email::{Email, email_ok, parsed_user};
use crate::log_io::{
    ActionView,
    LogDestView,
    LogIO,
    LogIOView,
    WriteAction,
    log_actions,
    log_next,
    switch_actions,
    switch_next,
    write_all_actions,
    write_all_next,
};
use crate::registry::MailboxRegistry;
use crate::smtp_stream::{CmdView, SmtpCmd, SmtpCmdWrapper};

verus! {

/// The banner written when a session opens.
pub open spec fn greeting_text() -> Seq<char> {
    "220 emailpipe.sh SMTP emailpipe\r\n"@
}

/// The prefix put before every logged line.
pub open spec fn log_prefix_text() -> Seq<char> {
    ">> "@
}

/// The reply to `HELO`.
pub open spec fn welcome_text() -> Seq<char> {
    "250 emailpipe.sh, welcome\r\n"@
}

/// The reply to a well-formed `MAIL FROM`, and to a routed `RCPT TO`.
pub open spec fn ok_text() -> Seq<char> {
    "250 ok\r\n"@
}

/// The reply to a malformed address.
pub open spec fn bad_syntax_text() -> Seq<char> {
    "501 bad syntax\r\n"@
}

/// The reply to `RCPT TO` naming an unregistered mailbox.
pub open spec fn no_such_user_text() -> Seq<char> {
    "550 no such user\r\n"@
}

/// The reply that opens a data block.
pub open spec fn data_go_text() -> Seq<char> {
    "354 End data with <CR><LF>.<CR><LF>\r\n"@
}

/// The reply that closes a data block.
pub open spec fn queued_text() -> Seq<char> {
    "250 Ok: queued message\r\n"@
}

/// The reply to `QUIT`.
pub open spec fn bye_text() -> Seq<char> {
    "221 bye\r\n"@
}

/// The reply to an unrecognized command.
pub open spec fn what_text() -> Seq<char> {
    "500 what?\r\n"@
}

/// The reply a command draws, given the registry contents; data lines draw
/// none.
pub open spec fn reply_for(c: CmdView, reg: Map<Seq<char>, u64>) -> Option<Seq<char>> {
    match c {
        CmdView::Helo(_) => Some(welcome_text()),
        CmdView::RcptTo(a) => if !email_ok(a) {
            Some(bad_syntax_text())
        } else if reg.contains_key(parsed_user(a)) {
            Some(ok_text())
        } else {
            Some(no_such_user_text())
        },
        CmdView::MailFrom(a) => if email_ok(a) {
            Some(ok_text())
        } else {
            Some(bad_syntax_text())
        },
        CmdView::DataStart => Some(data_go_text()),
        CmdView::DataPart(_) => None,
        CmdView::DataEnd => Some(queued_text()),
        CmdView::Quit => Some(bye_text()),
        CmdView::Unknown(_) => Some(what_text()),
    }
}

/// The handle the relay writer is redirected to by a command: only a
/// well-formed `RCPT TO` whose user is registered redirects, to that user's
/// handle.
pub open spec fn redirect_for(c: CmdView, reg: Map<Seq<char>, u64>) -> Option<u64> {
    match c {
        CmdView::RcptTo(a) => if email_ok(a) && reg.contains_key(parsed_user(a)) {
            Some(reg[parsed_user(a)])
        } else {
            None
        },
        _ => None,
    }
}

/// Whether a command ends the session.
pub open spec fn quits(c: CmdView) -> bool {
    c is Quit
}

/// The relay writer after one step: the raw line is logged, then the writer
/// is redirected where the command routes, then the reply is written.
pub open spec fn step_writer(
    m: LogIOView,
    c: CmdView,
    raw: Seq<char>,
    reg: Map<Seq<char>, u64>,
) -> LogIOView {
    let m1 = log_next(m, raw);
    let m2 = match redirect_for(c, reg) {
        Some(t) => switch_next(m1, t),
        None => m1,
    };
    match reply_for(c, reg) {
        Some(r) => write_all_next(m2, r),
        None => m2,
    }
}

/// The write actions one step emits, in order: those of logging the raw
/// line, then of the redirection, then of the reply.
pub open spec fn step_actions(
    m: LogIOView,
    c: CmdView,
    raw: Seq<char>,
    reg: Map<Seq<char>, u64>,
) -> Seq<ActionView> {
    let m1 = log_next(m, raw);
    let m2 = match redirect_for(c, reg) {
        Some(t) => switch_next(m1, t),
        None => m1,
    };
    let switch_part = match redirect_for(c, reg) {
        Some(t) => switch_actions(m1, t),
        None => Seq::empty(),
    };
    let reply_part = match reply_for(c, reg) {
        Some(r) => write_all_actions(m2, r),
        None => Seq::empty(),
    };
    log_actions(m, raw) + switch_part + reply_part
}

/// Once the relay writer forwards to a target, every step sends the raw
/// input line — prefixed — to that target, before any other write: the
/// listener observes the whole SMTP session as it happens.
pub proof fn lemma_forwarding_step_tees_raw(
    m: LogIOView,
    c: CmdView,
    raw: Seq<char>,
    reg: Map<Seq<char>, u64>,
    t: u64,
)
    requires
        m.log == LogDestView::Stream(t),
    ensures
        step_actions(m, c, raw, reg).len() >= 1,
        step_actions(m, c, raw, reg)[0] == ActionView::ToTarget(t, m.prefix + raw),
{
    assert(log_actions(m, raw)[0] == ActionView::ToTarget(t, m.prefix + raw));
}

/// While the relay writer is still buffering and the command does not
/// redirect it, a step writes to the client alone: nothing reaches any
/// listener before the first redirection.
pub proof fn lemma_buffering_step_stays_local(
    m: LogIOView,
    c: CmdView,
    raw: Seq<char>,
    reg: Map<Seq<char>, u64>,
)
    requires
        m.log is Buf,
        redirect_for(c, reg) is None,
    ensures
        forall|i: int|
            0 <= i < step_actions(m, c, raw, reg).len() ==> step_actions(m, c, raw, reg)[i]
                is ToClient,
{
    let acts = step_actions(m, c, raw, reg);
    match reply_for(c, reg) {
        Some(r) => {
            assert(acts =~= write_all_actions(log_next(m, raw), r));
            assert(acts[0] is ToClient);
        },
        None => {
            assert(acts =~= Seq::<ActionView>::empty());
        },
    }
}

/// Specification-level picture of a [`Session`].
#[verifier::ext_equal]
pub struct SessionView {
    pub writer: LogIOView,
    pub done: bool,
}

/// One SMTP session: its relay writer, and whether `QUIT` has been seen.
pub struct Session {
    writer: LogIO,
    done: bool,
}

impl View for Session {
    type V = SessionView;

    closed spec fn view(&self) -> SessionView {
        SessionView { writer: self.writer@, done: self.done }
    }
}

impl Session {
    /// Open a session: the writer starts buffering with the standard log
    /// prefix, and the greeting banner is the first write — duplicated into
    /// the buffer like every later reply.
    pub fn new() -> (r: (Session, Vec<WriteAction>))
        ensures
            r.0@.writer == (LogIOView {
                log: LogDestView::Buf(greeting_text()),
                prefix: log_prefix_text(),
            }),
            !r.0@.done,
            r.1.deep_view() == seq![ActionView::ToClient(greeting_text())],
    {
        let mut writer = LogIO::new(">> ".to_owned());
        let acts = writer.write_all("220 emailpipe.sh SMTP emailpipe\r\n");
        proof {
            assert(writer@ =~= (LogIOView {
                log: LogDestView::Buf(greeting_text()),
                prefix: log_prefix_text(),
            }));
        }
        (Session { writer, done: false }, acts)
    }

    /// Whether `QUIT` has been seen and the session is over.
    pub fn is_done(&self) -> (r: bool)
        ensures
            r == self@.done,
    {
        self.done
    }

    /// Process one parsed command.  The raw line is logged first, whatever
    /// the command; then the command is answered.  After `QUIT` the session
    /// is done: every further step changes nothing and emits nothing.
    pub fn step(&mut self, reg: &MailboxRegistry<u64>, w: SmtpCmdWrapper) -> (acts: Vec<
        WriteAction,
    >)
        requires
            reg.wf(),
        ensures
            old(self)@.done ==> final(self)@ == old(self)@ && acts.deep_view() == Seq::<
                ActionView,
            >::empty(),
            !old(self)@.done ==> final(self)@.writer == step_writer(
                old(self)@.writer,
                w.cmd@,
                w.raw@,
                reg@,
            ),
            !old(self)@.done ==> final(self)@.done == quits(w.cmd@),
            !old(self)@.done ==> acts.deep_view() == step_actions(
                old(self)@.writer,
                w.cmd@,
                w.raw@,
                reg@,
            ),
    {
        if self.done {
            let acts: Vec<WriteAction> = Vec::new();
            proof {
                assert(acts.deep_view() =~= Seq::<ActionView>::empty());
            }
            return acts;
        }
        let mut acts = self.writer.log(w.raw.as_str());
        match w.cmd {
            SmtpCmd::Helo(_domain) => {
                let mut a = self.writer.write_all("250 emailpipe.sh, welcome\r\n");
                acts.append(&mut a);
            },
            SmtpCmd::RcptTo(raw_email) => {
                match Email::try_from(raw_email.as_str()) {
                    Err(_) => {
                        let mut a = self.writer.write_all("501 bad syntax\r\n");
                        acts.append(&mut a);
                    },
                    Ok(email) => {
                        match reg.lookup(email.user.as_str()) {
                            None => {
                                let mut a = self.writer.write_all("550 no such user\r\n");
                                acts.append(&mut a);
                            },
                            Some(user_stream) => {
                                let target = *user_stream;
                                let mut a = self.writer.switch_log_and_flush(target);
                                acts.append(&mut a);
                                let mut b = self.writer.write_all("250 ok\r\n");
                                acts.append(&mut b);
                            },
                        }
                    },
                }
            },
            SmtpCmd::MailFrom(raw_email) => {
                match Email::try_from(raw_email.as_str()) {
                    Err(_) => {
                        let mut a = self.writer.write_all("501 bad syntax\r\n");
                        acts.append(&mut a);
                    },
                    Ok(_email) => {
                        let mut a = self.writer.write_all("250 ok\r\n");
                        acts.append(&mut a);
                    },
                }
            },
            SmtpCmd::DataStart => {
                let mut a = self.writer.write_all("354 End data with <CR><LF>.<CR><LF>\r\n");
                acts.append(&mut a);
            },
            SmtpCmd::DataPart(_data) => {},
            SmtpCmd::DataEnd => {
                let mut a = self.writer.write_all("250 Ok: queued message\r\n");
                acts.append(&mut a);
            },
            SmtpCmd::Quit => {
                let mut a = self.writer.write_all("221 bye\r\n");
                acts.append(&mut a);
                self.done = true;
            },
            SmtpCmd::Unknown(_line) => {
                let mut a = self.writer.write_all("500 what?\r\n");
                acts.append(&mut a);
            },
        }
        proof {
            assert(acts.deep_view() =~= step_actions(old(self)@.writer, w.cmd@, w.raw@, reg@));
            assert(self@.writer =~= step_writer(old(self)@.writer, w.cmd@, w.raw@, reg@));
        }
        acts
    }
}

} // verus!
