//! Audit log of session activity: a bounded ring of entries, oldest
//! first. Once the bound is exceeded the oldest entries are dropped.

use vstd::prelude::*;
use vstd::string::StringExecFns;

verus! {

/// Every log keeps at most this many entries.
pub const MAX_LOG_ENTRIES: usize = 1000;

#[derive(Clone, Copy, PartialEq, Eq, Structural, Debug)]
pub enum LogDirection {
    Sent,
    Received,
    Info,
    Error,
}

impl LogDirection {
    /// Short marker used when a log line is rendered.
    pub fn symbol(&self) -> (r: &'static str)
        ensures
            r@ == match self {
                LogDirection::Sent => "->"@,
                LogDirection::Received => "<-"@,
                LogDirection::Info => "--"@,
                LogDirection::Error => "!!"@,
            },
    {
        match self {
            LogDirection::Sent => "->",
            LogDirection::Received => "<-",
            LogDirection::Info => "--",
            LogDirection::Error => "!!",
        }
    }
}

/// One user-visible audit line.
pub struct LogEntry {
    pub timestamp: String,
    pub direction: LogDirection,
    pub message: String,
}

impl LogEntry {
    pub fn with_timestamp(timestamp: &str, direction: LogDirection, message: String) -> (r:
        LogEntry)
        ensures
            r.timestamp@ == timestamp@,
            r.direction == direction,
            r.message == message,
    {
        LogEntry { timestamp: String::from_str(timestamp), direction, message }
    }
}

/// What one append leaves behind: the new entry at the newest slot,
/// then the oldest entries dropped in one batch while over the bound.
pub open spec fn log_append_spec(s: Seq<LogEntry>, e: LogEntry, max: nat) -> Seq<LogEntry> {
    let t = s.push(e);
    if t.len() > max {
        t.skip(t.len() - max)
    } else {
        t
    }
}

/// The log after a whole sequence of appends.
pub open spec fn log_append_all(s: Seq<LogEntry>, es: Seq<LogEntry>, max: nat) -> Seq<LogEntry>
    decreases es.len(),
{
    if es.len() == 0 {
        s
    } else {
        log_append_all(log_append_spec(s, es[0], max), es.drop_first(), max)
    }
}

/// Retention: appending any sequence of entries keeps exactly the most
/// recent `max`, oldest first, once the total exceeds the bound.
pub proof fn lemma_log_retention(s: Seq<LogEntry>, es: Seq<LogEntry>, max: nat)
    requires
        s.len() <= max,
    ensures
        log_append_all(s, es, max) == if s.len() + es.len() <= max {
            s + es
        } else {
            (s + es).skip(s.len() + es.len() - max)
        },
    decreases es.len(),
{
    if es.len() == 0 {
        assert(s + es =~= s);
    } else {
        let s1 = log_append_spec(s, es[0], max);
        assert(s.push(es[0]) =~= s + seq![es[0]]);
        if s.len() + 1 <= max {
            assert(s1 =~= s + seq![es[0]]);
        } else {
            assert(s.len() == max);
            assert(s1 =~= (s + seq![es[0]]).skip(1));
        }
        assert(s1.len() <= max);
        lemma_log_retention(s1, es.drop_first(), max);
        if s.len() + es.len() <= max {
            assert(s1 + es.drop_first() =~= s + es);
        } else if s.len() + 1 <= max {
            assert(s1 + es.drop_first() =~= s + es);
            assert((s1 + es.drop_first()).skip(s1.len() + es.drop_first().len() - max) =~= (s
                + es).skip(s.len() + es.len() - max));
        } else {
            assert((s1 + es.drop_first()) =~= (s + es).skip(1));
            if s1.len() + es.drop_first().len() <= max {
                assert(s1 + es.drop_first() =~= (s + es).skip(s.len() + es.len() - max));
            } else {
                assert((s1 + es.drop_first()).skip(s1.len() + es.drop_first().len() - max) =~= (s
                    + es).skip(s.len() + es.len() - max));
            }
        }
    }
}

/// Bounded audit log; entries stand oldest first.
pub struct MessageLog {
    entries: Vec<LogEntry>,
}

impl View for MessageLog {
    type V = Seq<LogEntry>;

    closed spec fn view(&self) -> Seq<LogEntry> {
        self.entries@
    }
}

impl MessageLog {
    pub open spec fn well_formed(&self) -> bool {
        self@.len() <= MAX_LOG_ENTRIES
    }

    pub fn new() -> (r: MessageLog)
        ensures
            r@ == Seq::<LogEntry>::empty(),
            r.well_formed(),
    {
        MessageLog { entries: Vec::new() }
    }

    pub fn len(&self) -> (r: usize)
        ensures
            r == self@.len(),
    {
        self.entries.len()
    }

    pub fn entry_at(&self, i: usize) -> (r: &LogEntry)
        requires
            i < self@.len(),
        ensures
            *r == self@[i as int],
    {
        &self.entries[i]
    }

    pub fn clear(&mut self)
        ensures
            final(self)@ == Seq::<LogEntry>::empty(),
            final(self).well_formed(),
    {
        self.entries.clear();
    }

    /// Appends one entry; while over the bound the oldest entries are
    /// dropped from the front.
    pub fn append(&mut self, e: LogEntry)
        ensures
            final(self)@ == log_append_spec(old(self)@, e, MAX_LOG_ENTRIES as nat),
            final(self).well_formed(),
    {
        self.entries.push(e);
        let ghost t = self.entries@;
        proof {
            assert(t.skip(0) =~= t);
        }
        while self.entries.len() > MAX_LOG_ENTRIES
            invariant
                self.entries@ == t.skip(t.len() - self.entries@.len()),
                self.entries@.len() <= t.len(),
                t.len() > MAX_LOG_ENTRIES ==> self.entries@.len() >= MAX_LOG_ENTRIES,
                t.len() <= MAX_LOG_ENTRIES ==> self.entries@.len() == t.len(),
            decreases self.entries@.len(),
        {
            self.entries.remove(0);
            proof {
                assert(self.entries@ =~= t.skip(t.len() - self.entries@.len()));
            }
        }
        proof {
            assert(t.skip(0) =~= t);
            if t.len() <= MAX_LOG_ENTRIES {
                assert(self.entries@ =~= t);
            }
        }
    }
}

} // verus!
