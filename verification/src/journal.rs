//! The log of the windows: the newest lines, in order.
use crate::text;
use vstd::prelude::*;
use vstd::string::*;

verus! {

/// How many lines the log holds.
pub const LOG_LINES: usize = 300;

/// The log.
pub struct Log {
    pub lines: Vec<String>,
}

impl View for Log {
    type V = Seq<Seq<char>>;

    open spec fn view(&self) -> Seq<Seq<char>> {
        text::texts(self.lines@)
    }
}

/// The log with one more line: the oldest leaves where it is full.
pub open spec fn logged(lines: Seq<Seq<char>>, line: Seq<char>) -> Seq<Seq<char>> {
    if lines.len() + 1 > LOG_LINES {
        lines.push(line).drop_first()
    } else {
        lines.push(line)
    }
}

impl Log {
    /// The log holds no more than its lines.
    pub open spec fn wf(self) -> bool {
        self.lines@.len() <= LOG_LINES
    }

    /// An empty log.
    pub fn new() -> (log: Log)
        ensures
            log.wf(),
            log@ == Seq::<Seq<char>>::empty(),
    {
        let log: Log = Log { lines: Vec::new() };
        assert(log@ =~= Seq::<Seq<char>>::empty());
        log
    }

    /// Adds a line.
    pub fn append_log(&mut self, line: &str)
        requires
            old(self).wf(),
        ensures
            final(self).wf(),
            final(self)@ == logged(old(self)@, line@),
    {
        self.lines.push(String::from_str(line));
        assert(self@ =~= old(self)@.push(line@));
        if self.lines.len() > LOG_LINES {
            self.lines.remove(0);
            assert(self@ =~= old(self)@.push(line@).drop_first());
        }
    }

    /// What is shown: one line under the other.
    pub fn shown(&self) -> (s: String)
        ensures
            s@ == text::joined(self@, "\n"@),
    {
        text::join(&self.lines, "\n")
    }
}

/// The log after a row of lines.
pub open spec fn logged_all(lines: Seq<Seq<char>>, more: Seq<Seq<char>>) -> Seq<Seq<char>>
    decreases more.len(),
{
    if more.len() == 0 {
        lines
    } else {
        logged(logged_all(lines, more.drop_last()), more.last())
    }
}

/// The newest lines of a row, as many as the log holds.
pub open spec fn newest(lines: Seq<Seq<char>>) -> Seq<Seq<char>> {
    if lines.len() > LOG_LINES {
        lines.skip(lines.len() - LOG_LINES)
    } else {
        lines
    }
}

/// Whatever is logged, the log holds the newest lines, all of them and in order.
pub proof fn law_log_keeps_the_newest_lines(lines: Seq<Seq<char>>, more: Seq<Seq<char>>)
    requires
        lines.len() <= LOG_LINES,
    ensures
        logged_all(lines, more) == newest(lines + more),
    decreases more.len(),
{
    if more.len() == 0 {
        assert(lines + more =~= lines);
    } else {
        law_log_keeps_the_newest_lines(lines, more.drop_last());
        let before = lines + more.drop_last();
        assert(lines + more =~= before.push(more.last()));
        assert(logged_all(lines, more) =~= newest(lines + more));
    }
}

/// A log of three hundred lines or fewer after more lines: what was there with the new lines behind
/// it, less the oldest, of which there are as many as go beyond three hundred.
pub proof fn law_log_drops_the_oldest_lines(lines: Seq<Seq<char>>, more: Seq<Seq<char>>)
    requires
        lines.len() <= 300,
    ensures
        ({
            let all = lines + more;
            let log = logged_all(lines, more);
            &&& log.len() == if all.len() <= 300 {
                all.len() as int
            } else {
                300
            }
            &&& log == all.skip(all.len() - log.len())
        }),
{
    law_log_keeps_the_newest_lines(lines, more);
    let all = lines + more;
    let log = logged_all(lines, more);
    assert(log =~= all.skip(all.len() - log.len()));
}

} // verus!
