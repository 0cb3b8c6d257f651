//! Progress of a long-running operation (a search through a large sheet).

use vstd::prelude::*;
use crate::text::{decimal, push_char, push_decimal, push_str};

verus! {

/// Progress information for long-running operations.
pub struct ProgressInfo {
    pub message: String,
    pub current: usize,
    pub total: usize,
}

/// Whole percent done: `current * 100 / total`, or 100 when there is nothing to do.
pub open spec fn spec_percentage(current: usize, total: usize) -> nat {
    if total == 0 { 100 } else { ((current * 100) / (total as int)) as nat }
}

impl ProgressInfo {
    pub fn new(message: String, total: usize) -> (p: ProgressInfo)
        ensures
            p.message == message,
            p.current == 0,
            p.total == total,
    {
        ProgressInfo { message, current: 0, total }
    }

    pub fn update(&mut self, current: usize)
        ensures
            final(self).current == current,
            final(self).total == old(self).total,
            final(self).message == old(self).message,
    {
        self.current = current;
    }

    pub fn percentage(&self) -> (p: usize)
        requires
            self.current * 100 <= usize::MAX,
        ensures
            p == spec_percentage(self.current, self.total),
    {
        if self.total == 0 { 100 } else { (self.current * 100) / self.total }
    }

    /// `<message> <percent>% (<current>/<total>)`.
    pub fn format(&self) -> (s: String)
        requires
            self.current * 100 <= usize::MAX,
        ensures
            s@ == self.message@ + seq![' '] + decimal(spec_percentage(self.current, self.total))
                + seq!['%', ' ', '('] + decimal(self.current as nat) + seq!['/']
                + decimal(self.total as nat) + seq![')'],
    {
        let pct = self.percentage();
        let mut s = self.message.clone();
        push_char(&mut s, ' ');
        push_decimal(&mut s, pct as u64);
        push_char(&mut s, '%');
        push_char(&mut s, ' ');
        push_char(&mut s, '(');
        push_decimal(&mut s, self.current as u64);
        push_char(&mut s, '/');
        push_decimal(&mut s, self.total as u64);
        push_char(&mut s, ')');
        proof {
            assert(s@ =~= self.message@ + seq![' '] + decimal(spec_percentage(self.current, self.total))
                + seq!['%', ' ', '('] + decimal(self.current as nat) + seq!['/']
                + decimal(self.total as nat) + seq![')']);
        }
        s
    }
}

} // verus!
