//! A bounded log buffer for the host's diagnostic pane: keeps the most
//! recent lines up to a fixed capacity.

use vstd::prelude::*;

verus! {

/// A queue of log lines that drops its oldest line once `cap` is reached.
pub struct LogBuf {
    /// The retained lines, oldest first.
    pub lines: Vec<String>,
    /// How many lines are retained at most.
    pub cap: usize,
}

impl LogBuf {
    /// The buffer never holds more than its capacity.
    pub open spec fn wf(&self) -> bool {
        self.lines@.len() <= self.cap
    }

    /// An empty buffer with the given capacity.
    pub fn new(cap: usize) -> (b: LogBuf)
        ensures
            b.wf(),
            b.cap == cap,
            b.lines@ == Seq::<String>::empty(),
    {
        LogBuf { lines: Vec::new(), cap }
    }

    /// Append a line. At capacity the oldest line is dropped first, so
    /// the newest `cap` lines survive in order; with capacity zero
    /// nothing is kept.
    pub fn push(&mut self, s: String)
        requires
            old(self).wf(),
        ensures
            final(self).wf(),
            final(self).cap == old(self).cap,
            old(self).cap == 0 ==> final(self).lines@ == Seq::<String>::empty(),
            old(self).cap > 0 && old(self).lines@.len() < old(self).cap ==> final(self).lines@
                == old(self).lines@.push(s),
            old(self).cap > 0 && old(self).lines@.len() == old(self).cap ==> final(self).lines@
                == old(self).lines@.skip(1).push(s),
    {
        if self.cap == 0 {
            return ;
        }
        if self.lines.len() >= self.cap {
            let _ = self.lines.remove(0);
            proof {
                assert(self.lines@ =~= old(self).lines@.skip(1));
            }
        }
        self.lines.push(s);
    }
}

} // verus!
