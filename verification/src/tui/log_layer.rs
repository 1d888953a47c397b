//! The log that is kept in memory while the interface owns the screen.

use std::collections::VecDeque;

use vstd::prelude::*;

use crate::text::{copy, same};

verus! {

/// How many entries are kept.
pub const LOG_BUFFER_CAP: usize = 500;

/// One entry of the log.
#[derive(Debug)]
pub struct LogEntry {
    /// When it was written, in seconds since 1970.
    pub when: u64,
    pub level: String,
    pub target: String,
    pub text: String,
}

impl LogEntry {
    /// A copy of the entry.
    pub fn copy(&self) -> (r: LogEntry)
        ensures
            r == *self,
    {
        LogEntry {
            when: self.when,
            level: self.level.clone(),
            target: self.target.clone(),
            text: self.text.clone(),
        }
    }
}

/// The most recent entries, oldest first.
pub struct LogBufferHandle {
    pub entries: VecDeque<LogEntry>,
}

impl View for LogBufferHandle {
    type V = Seq<LogEntry>;

    open spec fn view(&self) -> Seq<LogEntry> {
        self.entries@
    }
}

/// The last entries of a log, as many as are kept.
pub open spec fn kept(log: Seq<LogEntry>) -> Seq<LogEntry> {
    if log.len() > LOG_BUFFER_CAP {
        log.skip(log.len() - LOG_BUFFER_CAP)
    } else {
        log
    }
}

impl LogBufferHandle {
    /// No more entries than are to be kept.
    pub open spec fn wf(&self) -> bool {
        self@.len() <= LOG_BUFFER_CAP
    }

    /// An empty log.
    pub fn new() -> (r: Self)
        ensures
            r.wf(),
            r@ == Seq::<LogEntry>::empty(),
    {
        LogBufferHandle { entries: VecDeque::new() }
    }

    /// Adds an entry; the oldest one leaves if the log is full.
    pub fn push(&mut self, entry: LogEntry)
        requires
            old(self).wf(),
        ensures
            final(self).wf(),
            final(self)@ == kept(old(self)@.push(entry)),
    {
        if self.entries.len() >= LOG_BUFFER_CAP {
            self.entries.pop_front();
        }
        self.entries.push_back(entry);
        assert(self@ =~= kept(old(self)@.push(entry)));
    }

    /// A copy of all entries.
    pub fn snapshot(&self) -> (r: Vec<LogEntry>)
        ensures
            r@ == self@,
    {
        let mut out: Vec<LogEntry> = Vec::new();
        let mut i: usize = 0;
        while i < self.entries.len()
            invariant
                i <= self@.len(),
                out@ == self@.take(i as int),
            decreases self@.len() - i,
        {
            out.push(self.entries[i].copy());
            i += 1;
            assert(out@ =~= self@.take(i as int));
        }
        assert(self@.take(i as int) =~= self@);
        out
    }

    /// How many entries there are.
    pub fn len(&self) -> (r: usize)
        ensures
            r == self@.len(),
    {
        self.entries.len()
    }

    /// Whether there is no entry.
    pub fn is_empty(&self) -> (r: bool)
        ensures
            r == (self@.len() == 0),
    {
        self.entries.len() == 0
    }
}

/// Puts the fields of a log event together to one text.
pub struct StringVisitor(pub String);

/// The text so far and a space, unless there is no text.
pub open spec fn spaced(s: Seq<char>) -> Seq<char> {
    if s.len() == 0 {
        s
    } else {
        s.push(' ')
    }
}

impl StringVisitor {
    /// Without any field.
    pub fn new() -> (r: Self)
        ensures
            r.0@ == Seq::<char>::empty(),
    {
        StringVisitor(String::new())
    }

    /// Adds a textual field; the field `message` goes without its name.
    pub fn record_text(&mut self, field: &str, value: &str)
        ensures
            final(self).0@ == spaced(old(self).0@) + (if field@ == "message"@ {
                Seq::<char>::empty()
            } else {
                field@.push('=')
            }) + value@,
    {
        if !self.0.as_str().is_empty() {
            self.0.push(' ');
        }
        let ghost base = self.0@;
        if !same(field, "message") {
            self.0.append(field);
            self.0.push('=');
            assert(self.0@ =~= base + field@.push('='));
        } else {
            assert(self.0@ =~= base + Seq::<char>::empty());
        }
        self.0.append(value);
    }

    /// Adds a field of another kind, written as text, with its name.
    pub fn record_value(&mut self, field: &str, value: &str)
        ensures
            final(self).0@ == spaced(old(self).0@) + field@.push('=') + value@,
    {
        if !self.0.as_str().is_empty() {
            self.0.push(' ');
        }
        let ghost base = self.0@;
        self.0.append(field);
        self.0.push('=');
        assert(self.0@ =~= base + field@.push('='));
        self.0.append(value);
    }
}

/// However many entries are pushed, the log holds the last ones in order: one
/// more entry after `log` has been kept is the same as keeping all of them.
pub proof fn log_keeps_the_last(log: Seq<LogEntry>, entry: LogEntry)
    ensures
        kept(kept(log).push(entry)) == kept(log.push(entry)),
        kept(log).len() <= LOG_BUFFER_CAP,
{
    assert(kept(kept(log).push(entry)) =~= kept(log.push(entry)));
}

/// The log holds the last entries that fit, in the order they came.
pub proof fn the_last_entries_are_kept(log: Seq<LogEntry>, i: int)
    requires
        0 <= i < kept(log).len(),
    ensures
        kept(log).len() == log.len() || kept(log).len() == LOG_BUFFER_CAP,
        kept(log)[i] == log[log.len() - kept(log).len() + i],
{
}

} // verus!
