//! The SMTP command parser: classifies one newline-terminated line at a time
//! into a typed command, tracking whether a `DATA` block is being captured.
//!
//! Keyword matching is deliberately loose (a prefix match, case-insensitive);
//! stricter validation of addresses happens downstream.  While a data block is
//! being captured every line is passed through verbatim until the terminator
//! line, a single dot.

use vstd::prelude::*;

use crate::text::{lower_char, starts_with_ci, str_starts_with_ci};

verus! {

/// Specification-level picture of one parsed command.
pub enum CmdView {
    Helo(Seq<char>),
    RcptTo(Seq<char>),
    MailFrom(Seq<char>),
    DataStart,
    DataPart(Seq<char>),
    DataEnd,
    Quit,
    Unknown(Seq<char>),
}

/// One parsed SMTP command, with the argument text where the command has one.
pub enum SmtpCmd {
    Helo(String),
    RcptTo(String),
    MailFrom(String),
    DataStart,
    DataPart(String),
    DataEnd,
    Quit,
    Unknown(String),
}

impl View for SmtpCmd {
    type V = CmdView;

    open spec fn view(&self) -> CmdView {
        match self {
            SmtpCmd::Helo(s) => CmdView::Helo(s@),
            SmtpCmd::RcptTo(s) => CmdView::RcptTo(s@),
            SmtpCmd::MailFrom(s) => CmdView::MailFrom(s@),
            SmtpCmd::DataStart => CmdView::DataStart,
            SmtpCmd::DataPart(s) => CmdView::DataPart(s@),
            SmtpCmd::DataEnd => CmdView::DataEnd,
            SmtpCmd::Quit => CmdView::Quit,
            SmtpCmd::Unknown(s) => CmdView::Unknown(s@),
        }
    }
}

/// A parsed command together with the verbatim source line it came from.
pub struct SmtpCmdWrapper {
    pub cmd: SmtpCmd,
    pub raw: String,
}

/// Pair a command with the raw line it was parsed from.
pub fn cmd(c: SmtpCmd, raw: String) -> (r: SmtpCmdWrapper)
    ensures
        r.cmd == c,
        r.raw == raw,
{
    SmtpCmdWrapper { cmd: c, raw }
}

/// The argument of a command line: everything from `start` up to the line
/// ending (the last two characters), or empty where the line is too short.
pub open spec fn arg_of(line: Seq<char>, start: int) -> Seq<char> {
    if start + 2 <= line.len() {
        line.subrange(start, line.len() - 2)
    } else {
        Seq::empty()
    }
}

/// A line that terminates a data block: a single dot, optionally followed by
/// a line ending.
pub open spec fn is_end_of_data_line(line: Seq<char>) -> bool {
    line == "."@ || line == ".\n"@ || line == ".\r\n"@
}

/// A bare `DATA` line: the keyword alone (up to ASCII case), optionally
/// followed by a line ending.
pub open spec fn is_data_start_line(line: Seq<char>) -> bool {
    &&& starts_with_ci(line, "data"@)
    &&& {
        ||| line.len() == 4
        ||| (line.len() == 5 && line[4] == '\n')
        ||| (line.len() == 6 && line[4] == '\r' && line[5] == '\n')
    }
}

/// How one line is classified, given whether a data block is being captured.
pub open spec fn classify_line(capturing: bool, line: Seq<char>) -> CmdView {
    if capturing {
        if is_end_of_data_line(line) {
            CmdView::DataEnd
        } else {
            CmdView::DataPart(line)
        }
    } else if starts_with_ci(line, "helo"@) {
        CmdView::Helo(arg_of(line, 5))
    } else if starts_with_ci(line, "rcpt to"@) {
        CmdView::RcptTo(arg_of(line, 8))
    } else if starts_with_ci(line, "mail from"@) {
        CmdView::MailFrom(arg_of(line, 10))
    } else if is_data_start_line(line) {
        CmdView::DataStart
    } else if starts_with_ci(line, "quit"@) {
        CmdView::Quit
    } else {
        CmdView::Unknown(line)
    }
}

/// Whether a data block is being captured after the given line.
pub open spec fn state_after(capturing: bool, line: Seq<char>) -> bool {
    if capturing {
        !is_end_of_data_line(line)
    } else {
        is_data_start_line(line)
    }
}

/// The incremental parser: one per connection.  It remembers only whether a
/// data block is open; each line handed to [`SmtpStream::next`] is classified
/// under that state.
pub struct SmtpStream {
    capturing_data: bool,
}

impl SmtpStream {
    /// Whether the parser is inside a data block.
    pub closed spec fn capturing(&self) -> bool {
        self.capturing_data
    }

    /// A fresh parser, in command mode.
    pub fn new() -> (r: SmtpStream)
        ensures
            !r.capturing(),
    {
        SmtpStream { capturing_data: false }
    }

    /// Classify one line and advance the parser state.
    pub fn next(&mut self, line: &str) -> (r: SmtpCmdWrapper)
        ensures
            r.cmd@ == classify_line(old(self).capturing(), line@),
            r.raw@ == line@,
            final(self).capturing() == state_after(old(self).capturing(), line@),
    {
        proof {
            reveal_strlit("helo");
            reveal_strlit("rcpt to");
            reveal_strlit("mail from");
            reveal_strlit("data");
            reveal_strlit("quit");
        }
        let len = line.unicode_len();
        let raw = line.to_owned();
        if self.capturing_data {
            if is_end_of_data(line, len) {
                self.capturing_data = false;
                return cmd(SmtpCmd::DataEnd, raw);
            }
            return cmd(SmtpCmd::DataPart(line.to_owned()), raw);
        }
        if str_starts_with_ci(line, "helo") {
            proof {
                assert("helo"@[0] == 'h');
                assert("data"@[0] == 'd');
                assert(lower_char(line@[0]) == "helo"@[0]);
            }
            return cmd(SmtpCmd::Helo(extract_arg(line, 5)), raw);
        }
        if str_starts_with_ci(line, "rcpt to") {
            return cmd(SmtpCmd::RcptTo(extract_arg(line, 8)), raw);
        }
        if str_starts_with_ci(line, "mail from") {
            return cmd(SmtpCmd::MailFrom(extract_arg(line, 10)), raw);
        }
        if is_data_start(line, len) {
            self.capturing_data = true;
            return cmd(SmtpCmd::DataStart, raw);
        }
        if str_starts_with_ci(line, "quit") {
            return cmd(SmtpCmd::Quit, raw);
        }
        cmd(SmtpCmd::Unknown(line.to_owned()), raw)
    }
}

/// Copy out the argument part of a command line, guarding against lines too
/// short to carry one.
fn extract_arg(line: &str, start: usize) -> (r: String)
    ensures
        r@ == arg_of(line@, start as int),
{
    let len = line.unicode_len();
    if len >= 2 && start <= len - 2 {
        line.substring_char(start, len - 2).to_owned()
    } else {
        String::new()
    }
}

/// Decide whether `line` is a data-block terminator.
fn is_end_of_data(line: &str, len: usize) -> (r: bool)
    requires
        len == line@.len(),
    ensures
        r == is_end_of_data_line(line@),
{
    proof {
        reveal_strlit(".");
        reveal_strlit(".\n");
        reveal_strlit(".\r\n");
    }
    if len == 0 || len > 3 || line.get_char(0) != '.' {
        return false;
    }
    if len == 1 {
        proof {
            assert(line@ =~= "."@);
        }
        return true;
    }
    if len == 2 {
        let r = line.get_char(1) == '\n';
        proof {
            if r {
                assert(line@ =~= ".\n"@);
            } else {
                assert(line@ != ".\n"@) by {
                    if line@ == ".\n"@ {
                        assert(line@[1] == '\n');
                    }
                }
                assert(line@ != "."@) by {
                    if line@ == "."@ {
                        assert(line@.len() == 1);
                    }
                }
                assert(line@ != ".\r\n"@) by {
                    if line@ == ".\r\n"@ {
                        assert(line@.len() == 3);
                    }
                }
            }
        }
        return r;
    }
    let r = line.get_char(1) == '\r' && line.get_char(2) == '\n';
    proof {
        if r {
            assert(line@ =~= ".\r\n"@);
        } else {
            assert(line@ != ".\r\n"@) by {
                if line@ == ".\r\n"@ {
                    assert(line@[1] == '\r' && line@[2] == '\n');
                }
            }
            assert(line@ != "."@) by {
                if line@ == "."@ {
                    assert(line@.len() == 1);
                }
            }
            assert(line@ != ".\n"@) by {
                if line@ == ".\n"@ {
                    assert(line@.len() == 2);
                }
            }
        }
    }
    r
}

/// Decide whether `line` is a bare `DATA` command.
fn is_data_start(line: &str, len: usize) -> (r: bool)
    requires
        len == line@.len(),
    ensures
        r == is_data_start_line(line@),
{
    if !str_starts_with_ci(line, "data") {
        return false;
    }
    if len == 4 {
        return true;
    }
    if len == 5 {
        return line.get_char(4) == '\n';
    }
    if len == 6 {
        return line.get_char(4) == '\r' && line.get_char(5) == '\n';
    }
    false
}

/// The command sequence produced by running the parser over a sequence of
/// lines from a given starting state.
pub open spec fn outputs_from(capturing: bool, lines: Seq<Seq<char>>) -> Seq<CmdView>
    decreases lines.len(),
{
    if lines.len() == 0 {
        Seq::empty()
    } else {
        seq![classify_line(capturing, lines[0])] + outputs_from(
            state_after(capturing, lines[0]),
            lines.drop_first(),
        )
    }
}

/// The parser state after running over a sequence of lines.
pub open spec fn capturing_after(capturing: bool, lines: Seq<Seq<char>>) -> bool
    decreases lines.len(),
{
    if lines.len() == 0 {
        capturing
    } else {
        capturing_after(state_after(capturing, lines[0]), lines.drop_first())
    }
}

/// The parser emits one command per line, whatever the lines hold.
pub proof fn lemma_outputs_len(capturing: bool, lines: Seq<Seq<char>>)
    ensures
        outputs_from(capturing, lines).len() == lines.len(),
    decreases lines.len(),
{
    if lines.len() > 0 {
        lemma_outputs_len(state_after(capturing, lines[0]), lines.drop_first());
    }
}

/// A bare `DATA` line read in command mode opens a data block and is
/// reported as such, never as any other command.
pub proof fn lemma_data_start(line: Seq<char>)
    requires
        is_data_start_line(line),
    ensures
        classify_line(false, line) == CmdView::DataStart,
        state_after(false, line),
{
    reveal_strlit("helo");
    reveal_strlit("rcpt to");
    reveal_strlit("mail from");
    reveal_strlit("data");
    assert("data"@[0] == 'd');
    assert(lower_char(line[0]) == "data"@[0]);
    assert(!starts_with_ci(line, "helo"@)) by {
        if starts_with_ci(line, "helo"@) {
            assert(lower_char(line[0]) == "helo"@[0]);
        }
    }
    assert(!starts_with_ci(line, "rcpt to"@)) by {
        if starts_with_ci(line, "rcpt to"@) {
            assert(lower_char(line[0]) == "rcpt to"@[0]);
        }
    }
    assert(!starts_with_ci(line, "mail from"@)) by {
        if starts_with_ci(line, "mail from"@) {
            assert(lower_char(line[0]) == "mail from"@[0]);
        }
    }
}

/// Once a data block is open, every line before the first terminator line is
/// reported verbatim as message data — even lines that look like commands —
/// and the terminator itself ends the capture and returns the parser to
/// command mode.
pub proof fn lemma_data_capture(lines: Seq<Seq<char>>, k: int)
    requires
        0 <= k <= lines.len(),
        forall|i: int| 0 <= i < k ==> !is_end_of_data_line(#[trigger] lines[i]),
    ensures
        outputs_from(true, lines).len() == lines.len(),
        forall|i: int| 0 <= i < k ==> outputs_from(true, lines)[i] == CmdView::DataPart(lines[i]),
        forall|i: int| 0 <= i <= k ==> capturing_after(true, #[trigger] lines.take(i)),
        k < lines.len() && is_end_of_data_line(lines[k]) ==> {
            &&& outputs_from(true, lines)[k] == CmdView::DataEnd
            &&& !capturing_after(true, lines.take(k + 1))
        },
    decreases k,
{
    lemma_outputs_len(true, lines);
    if k == 0 {
        assert(forall|i: int| 0 <= i <= 0 ==> #[trigger] lines.take(i) =~= Seq::<Seq<char>>::empty());
        if 0 < lines.len() && is_end_of_data_line(lines[0]) {
            assert(outputs_from(true, lines)[0] == CmdView::DataEnd);
            assert(lines.take(1) =~= seq![lines[0]]);
            assert(lines.take(1)[0] == lines[0]);
            assert(lines.take(1).drop_first() =~= Seq::<Seq<char>>::empty());
            assert(!state_after(true, lines.take(1)[0]));
            assert(!capturing_after(false, lines.take(1).drop_first()));
            assert(!capturing_after(true, lines.take(1)));
        }
    } else {
        let rest = lines.drop_first();
        lemma_data_capture(rest, k - 1);
        assert(classify_line(true, lines[0]) == CmdView::DataPart(lines[0]));
        assert(state_after(true, lines[0]));
        assert forall|i: int| 0 <= i < k implies outputs_from(true, lines)[i] == CmdView::DataPart(
            lines[i],
        ) by {
            if i > 0 {
                assert(outputs_from(true, lines)[i] == outputs_from(true, rest)[i - 1]);
                assert(rest[i - 1] == lines[i]);
            }
        }
        assert forall|i: int| 0 <= i <= k implies capturing_after(
            true,
            #[trigger] lines.take(i),
        ) by {
            if i == 0 {
                assert(lines.take(0) =~= Seq::<Seq<char>>::empty());
            } else {
                assert(lines.take(i).drop_first() =~= rest.take(i - 1));
                assert(lines.take(i)[0] == lines[0]);
            }
        }
        if k < lines.len() && is_end_of_data_line(lines[k]) {
            assert(outputs_from(true, lines)[k] == outputs_from(true, rest)[k - 1]);
            assert(rest[k - 1] == lines[k]);
            assert(lines.take(k + 1).drop_first() =~= rest.take(k));
            assert(lines.take(k + 1)[0] == lines[0]);
        }
    }
}

} // verus!
