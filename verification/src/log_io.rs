//! The relay writer: a tee over two destinations.  Every reply written to the
//! SMTP client is duplicated into a "log" destination that starts as an
//! in-memory buffer and can be redirected, once, to a live target connection;
//! redirection drains the buffered prefix to the target exactly once, and a
//! later redirection merely repoints the target without replaying anything.
//!
//! The writer itself performs no I/O: each operation returns the list of
//! write actions the caller must carry out, in order, on the named sockets.

use vstd::prelude::*;

verus! {

/// Specification-level picture of one write action.
pub enum ActionView {
    /// Text for the SMTP client's own connection.
    ToClient(Seq<char>),
    /// Text for the target connection with the given handle.
    ToTarget(u64, Seq<char>),
}

/// One pending write, to be carried out by the caller in order.
pub enum WriteAction {
    /// Write the text to the SMTP client's own connection.
    ToClient(String),
    /// Write the text to the target connection with the given handle.
    ToTarget(u64, String),
}

impl View for WriteAction {
    type V = ActionView;

    open spec fn view(&self) -> ActionView {
        match self {
            WriteAction::ToClient(s) => ActionView::ToClient(s@),
            WriteAction::ToTarget(t, s) => ActionView::ToTarget(*t, s@),
        }
    }
}

impl DeepView for WriteAction {
    type V = ActionView;

    open spec fn deep_view(&self) -> ActionView {
        self.view()
    }
}

/// The log destination: an in-memory buffer, or a live target connection.
pub enum BufOrStream {
    Buf(String),
    Stream(u64),
}

/// Specification-level picture of the log destination.
#[verifier::ext_equal]
pub enum LogDestView {
    Buf(Seq<char>),
    Stream(u64),
}

/// Specification-level picture of a [`LogIO`].
#[verifier::ext_equal]
pub struct LogIOView {
    pub log: LogDestView,
    pub prefix: Seq<char>,
}

/// The relay writer: wraps the SMTP client connection (always written) and
/// the log destination (buffer first, live target after redirection).
pub struct LogIO {
    log: BufOrStream,
    prefix: String,
}

impl View for LogIO {
    type V = LogIOView;

    closed spec fn view(&self) -> LogIOView {
        LogIOView {
            log: match self.log {
                BufOrStream::Buf(b) => LogDestView::Buf(b@),
                BufOrStream::Stream(t) => LogDestView::Stream(t),
            },
            prefix: self.prefix@,
        }
    }
}

/// What a duplicated write does to the writer: while buffering, the text is
/// appended to the buffer; once forwarding, nothing changes.
pub open spec fn write_all_next(m: LogIOView, data: Seq<char>) -> LogIOView {
    match m.log {
        LogDestView::Buf(b) => LogIOView { log: LogDestView::Buf(b + data), prefix: m.prefix },
        LogDestView::Stream(_) => m,
    }
}

/// The actions a duplicated write emits: the text always goes to the client,
/// and also to the target once forwarding.
pub open spec fn write_all_actions(m: LogIOView, data: Seq<char>) -> Seq<ActionView> {
    match m.log {
        LogDestView::Buf(_) => seq![ActionView::ToClient(data)],
        LogDestView::Stream(t) => seq![
            ActionView::ToTarget(t, data),
            ActionView::ToClient(data),
        ],
    }
}

/// What a log-only write does to the writer: the prefixed text is appended to
/// the buffer while buffering.
pub open spec fn log_next(m: LogIOView, data: Seq<char>) -> LogIOView {
    match m.log {
        LogDestView::Buf(b) => LogIOView {
            log: LogDestView::Buf(b + m.prefix + data),
            prefix: m.prefix,
        },
        LogDestView::Stream(_) => m,
    }
}

/// The actions a log-only write emits: nothing while buffering, the prefixed
/// text to the target once forwarding.
pub open spec fn log_actions(m: LogIOView, data: Seq<char>) -> Seq<ActionView> {
    match m.log {
        LogDestView::Buf(_) => Seq::empty(),
        LogDestView::Stream(t) => seq![ActionView::ToTarget(t, m.prefix + data)],
    }
}

/// What a redirection does to the writer: the log destination becomes the
/// given target, whatever it was before.
pub open spec fn switch_next(m: LogIOView, target: u64) -> LogIOView {
    LogIOView { log: LogDestView::Stream(target), prefix: m.prefix }
}

/// The actions a redirection emits: the whole buffered prefix to the new
/// target — once, and only on the first redirection.  A writer already
/// forwarding is merely repointed and emits nothing.
pub open spec fn switch_actions(m: LogIOView, target: u64) -> Seq<ActionView> {
    match m.log {
        LogDestView::Buf(b) => seq![ActionView::ToTarget(target, b)],
        LogDestView::Stream(_) => Seq::empty(),
    }
}

impl LogIO {
    /// A fresh writer: buffering, with an empty buffer and the given per-line
    /// log prefix.
    pub fn new(prefix: String) -> (r: LogIO)
        ensures
            r@ == (LogIOView { log: LogDestView::Buf(Seq::empty()), prefix: prefix@ }),
    {
        LogIO { log: BufOrStream::Buf(String::new()), prefix }
    }

    /// Write `data` to both destinations: the log side (buffered or live) and
    /// the SMTP client.
    pub fn write_all(&mut self, data: &str) -> (acts: Vec<WriteAction>)
        ensures
            final(self)@ == write_all_next(old(self)@, data@),
            acts.deep_view() == write_all_actions(old(self)@, data@),
    {
        let mut acts: Vec<WriteAction> = Vec::new();
        match &mut self.log {
            BufOrStream::Buf(b) => {
                b.append(data);
            },
            BufOrStream::Stream(t) => {
                acts.push(WriteAction::ToTarget(*t, data.to_owned()));
            },
        }
        acts.push(WriteAction::ToClient(data.to_owned()));
        proof {
            assert(acts.deep_view() =~= write_all_actions(old(self)@, data@));
        }
        acts
    }

    /// Write the per-line prefix and then `data` to the log side only.
    pub fn log(&mut self, data: &str) -> (acts: Vec<WriteAction>)
        ensures
            final(self)@ == log_next(old(self)@, data@),
            acts.deep_view() == log_actions(old(self)@, data@),
    {
        let mut acts: Vec<WriteAction> = Vec::new();
        let mut text = self.prefix.clone();
        text.append(data);
        match &mut self.log {
            BufOrStream::Buf(b) => {
                b.append(text.as_str());
            },
            BufOrStream::Stream(t) => {
                acts.push(WriteAction::ToTarget(*t, text));
            },
        }
        proof {
            assert(self@ =~= log_next(old(self)@, data@));
            assert(acts.deep_view() =~= log_actions(old(self)@, data@));
        }
        acts
    }

    /// Redirect the log side to `target`.  On the first redirection the whole
    /// buffered prefix is emitted to the target, before anything else; on a
    /// later one nothing is emitted — the target is only repointed.
    pub fn switch_log_and_flush(&mut self, target: u64) -> (acts: Vec<WriteAction>)
        ensures
            final(self)@ == switch_next(old(self)@, target),
            acts.deep_view() == switch_actions(old(self)@, target),
    {
        let mut acts: Vec<WriteAction> = Vec::new();
        let mut prev = BufOrStream::Stream(target);
        core::mem::swap(&mut self.log, &mut prev);
        match prev {
            BufOrStream::Buf(b) => {
                acts.push(WriteAction::ToTarget(target, b));
            },
            BufOrStream::Stream(_) => {},
        }
        proof {
            assert(acts.deep_view() =~= switch_actions(old(self)@, target));
        }
        acts
    }
}

} // verus!
