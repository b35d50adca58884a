//! The in-memory history buffer. Entries accumulate until the buffer
//! exceeds half the configured maximum, at which point the buffered entries
//! are handed back for the caller to persist and the buffer starts over.

use vstd::prelude::*;

verus! {

/// Submitted lines waiting to be persisted.
pub struct History {
    pub buffer: Vec<String>,
    pub max_lines: usize,
}

impl History {
    pub fn new(max_lines: usize) -> (r: History)
        ensures
            r.buffer@ == Seq::<String>::empty(),
            r.max_lines == max_lines,
    {
        History { buffer: Vec::new(), max_lines }
    }

    /// Append one entry. When the buffer then exceeds half the configured
    /// maximum, every buffered entry is returned for persisting and the
    /// buffer is left empty; otherwise the entry just joins the buffer.
    pub fn add_history(&mut self, entry: &String) -> (flush: Option<Vec<String>>)
        ensures
            final(self).max_lines == old(self).max_lines,
            old(self).buffer@.len() + 1 > old(self).max_lines / 2 ==> {
                &&& final(self).buffer@ == Seq::<String>::empty()
                &&& flush matches Some(out) && out@ == old(self).buffer@.push(*entry)
            },
            old(self).buffer@.len() + 1 <= old(self).max_lines / 2 ==> {
                &&& final(self).buffer@ == old(self).buffer@.push(*entry)
                &&& flush is None
            },
    {
        self.buffer.push(entry.clone());
        if self.buffer.len() > self.max_lines / 2 {
            Some(self.flush_history())
        } else {
            None
        }
    }

    /// A history entry looked up by index; the shell keeps none itself, so
    /// the result is always empty.
    pub fn _get_history_entry(_index: usize) -> (r: String)
        ensures
            r@ == Seq::<char>::empty(),
    {
        String::new()
    }

    /// Hand every buffered entry back for persisting and empty the buffer.
    pub fn flush_history(&mut self) -> (out: Vec<String>)
        ensures
            final(self).max_lines == old(self).max_lines,
            final(self).buffer@ == Seq::<String>::empty(),
            out@ == old(self).buffer@,
    {
        let mut out: Vec<String> = Vec::new();
        core::mem::swap(&mut out, &mut self.buffer);
        out
    }
}

} // verus!
