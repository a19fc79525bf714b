//! The bounded log of queries.
//!
//! The log keeps the most recent entries, oldest first. A new entry goes to
//! the back; entries beyond the size of the log leave at the front and are
//! counted as evicted. An entry that left the log is still written by its
//! token.

use vstd::prelude::*;

use std::collections::VecDeque;
use std::sync::Arc;

use crate::query_log::entry::QueryLogEntry;
use crate::query_log::state::EntryState;
use crate::query_log::time::Time;
use crate::query_log::token::QueryCompletedToken;
use crate::query_log::token::StateReceived;

verus! {

/// The entries of a log at one moment.
#[derive(Debug)]
pub struct QueryLogEntries {
    /// The entries, oldest first.
    pub entries: VecDeque<Arc<QueryLogEntry>>,
    /// The most entries the log keeps.
    pub max_size: usize,
    /// The number of entries that left the log to make room.
    pub evicted: usize,
}

/// What a log of at most `max_size` entries holds after `item` was pushed:
/// nothing is kept by a log of size 0, and a full log lets go of its oldest
/// entries.
pub open spec fn spec_push_bounded<T>(entries: Seq<T>, item: T, max_size: usize) -> Seq<T> {
    if max_size == 0 {
        entries
    } else if entries.len() + 1 > max_size {
        entries.push(item).skip(entries.len() + 1 - max_size)
    } else {
        entries.push(item)
    }
}

/// The number of entries that leave a log of `len` entries when one more
/// is pushed.
pub open spec fn spec_evicted_by_push(len: nat, max_size: usize) -> nat {
    if max_size == 0 || len + 1 <= max_size {
        0
    } else {
        (len + 1 - max_size) as nat
    }
}

/// The counter of evicted entries after `count` more were evicted; it
/// starts over at 0 where it would no longer fit its word.
pub open spec fn spec_count_evicted(evicted: usize, count: nat) -> usize {
    if evicted + count > usize::MAX {
        (evicted + count - (usize::MAX + 1)) as usize
    } else {
        (evicted + count) as usize
    }
}

/// What a log of at most `max_size` entries holds after the items were
/// pushed one after the other into an empty log.
pub open spec fn spec_log_after<T>(items: Seq<T>, max_size: usize) -> Seq<T>
    decreases items.len(),
{
    if items.len() == 0 {
        Seq::empty()
    } else {
        spec_push_bounded(spec_log_after(items.drop_last(), max_size), items.last(), max_size)
    }
}

/// The number of entries that were evicted while the items were pushed one
/// after the other into an empty log.
pub open spec fn spec_evicted_after<T>(items: Seq<T>, max_size: usize) -> nat
    decreases items.len(),
{
    if items.len() == 0 {
        0
    } else {
        spec_evicted_after(items.drop_last(), max_size) + spec_evicted_by_push(
            spec_log_after(items.drop_last(), max_size).len(),
            max_size,
        )
    }
}

/// After any number of pushes a log holds the most recent entries, as many
/// as fit, in the order they were pushed.
pub proof fn lemma_bounded_log<T>(items: Seq<T>, max_size: usize)
    ensures
        spec_log_after(items, max_size).len() == if items.len() <= max_size {
            items.len()
        } else {
            max_size as nat
        },
        max_size > 0 ==> spec_log_after(items, max_size) == items.skip(
            items.len() - spec_log_after(items, max_size).len(),
        ),
        max_size > 0 ==> spec_evicted_after(items, max_size) == if items.len() <= max_size {
            0
        } else {
            (items.len() - max_size) as nat
        },
        max_size == 0 ==> spec_evicted_after(items, max_size) == 0,
    decreases items.len(),
{
    if items.len() == 0 {
        assert(items.skip(0) =~= spec_log_after(items, max_size));
    } else {
        let earlier = items.drop_last();
        lemma_bounded_log(earlier, max_size);
        let before = spec_log_after(earlier, max_size);
        let after = spec_log_after(items, max_size);
        if max_size > 0 {
            assert(after =~= items.skip(items.len() - after.len()));
        }
    }
}

/// Pushes `item` to the back of `log`, after letting entries go at the
/// front until the log, with `item`, holds at most `max_size` entries.
/// Returns how many left. A log of size 0 keeps nothing and lets nothing
/// go.
pub fn push_bounded<T>(log: &mut VecDeque<T>, item: T, max_size: usize) -> (evicted: usize)
    ensures
        final(log)@ == spec_push_bounded(old(log)@, item, max_size),
        evicted == spec_evicted_by_push(old(log)@.len(), max_size),
{
    if max_size == 0 {
        return 0;
    }
    let ghost before = log@;
    let len: usize = log.len();
    let mut evicted: usize = 0;
    assert(log@ =~= before.skip(0));
    while log.len() >= max_size
        invariant
            max_size > 0,
            evicted <= before.len(),
            log@ == before.skip(evicted as int),
            evicted > 0 ==> before.len() - evicted + 1 >= max_size,
            before.len() == len,
        decreases log@.len(),
    {
        let _ = log.pop_front();
        evicted = evicted + 1;
        assert(log@ =~= before.skip(evicted as int));
    }
    log.push_back(item);
    assert(log@ =~= spec_push_bounded(before, item, max_size));
    evicted
}

/// The log of the most recent queries.
#[derive(Debug)]
pub struct QueryLog {
    log: VecDeque<Arc<QueryLogEntry>>,
    max_size: usize,
    evicted: usize,
}

impl QueryLog {
    /// The entries, oldest first.
    pub closed spec fn spec_entries(&self) -> Seq<Arc<QueryLogEntry>> {
        self.log@
    }

    /// The most entries the log keeps.
    pub closed spec fn spec_max_size(&self) -> usize {
        self.max_size
    }

    /// The number of entries that left the log to make room.
    pub closed spec fn spec_evicted(&self) -> usize {
        self.evicted
    }

    /// True when the log holds no more entries than its size. Every log
    /// that `new` made and `push` changed is so.
    pub closed spec fn wf(&self) -> bool {
        self.log@.len() <= self.max_size
    }

    /// An empty log that keeps at most `max_size` entries.
    pub fn new(max_size: usize) -> (log: Self)
        ensures
            log.wf(),
            log.spec_entries() == Seq::<Arc<QueryLogEntry>>::empty(),
            log.spec_max_size() == max_size,
            log.spec_evicted() == 0,
    {
        QueryLog { log: VecDeque::new(), max_size, evicted: 0 }
    }

    /// Records that a query was received at `now`, under the id `id`, and
    /// hands out its token.
    ///
    /// The entry goes to the back of the log, and the oldest entry leaves
    /// where the log is full. A log of size 0 keeps no entry; the token
    /// works all the same.
    pub fn push(
        &mut self,
        id: u128,
        namespace_id: i64,
        namespace_name: String,
        query_type: &'static str,
        query_text: String,
        trace_id: Option<u128>,
        now: Time,
    ) -> (token: QueryCompletedToken<StateReceived>)
        requires
            old(self).wf(),
        ensures
            final(self).wf(),
            token.spec_entry().spec_id() == id,
            token.spec_entry().spec_namespace_id() == namespace_id,
            token.spec_entry().spec_namespace_name() == namespace_name,
            token.spec_entry().spec_query_type() == query_type,
            token.spec_entry().spec_query_text() == query_text,
            token.spec_entry().spec_trace_id() == trace_id,
            token.spec_entry().spec_issue_time() == now,
            token.spec_course() == EntryState::spec_received(now),
            final(self).spec_max_size() == old(self).spec_max_size(),
            final(self).spec_entries() == spec_push_bounded(
                old(self).spec_entries(),
                token.spec_entry(),
                old(self).spec_max_size(),
            ),
            final(self).spec_evicted() == spec_count_evicted(
                old(self).spec_evicted(),
                spec_evicted_by_push(old(self).spec_entries().len(), old(self).spec_max_size()),
            ),
            final(self).spec_entries().len() <= final(self).spec_max_size(),
    {
        let entry = Arc::new(
            QueryLogEntry::new(
                id,
                namespace_id,
                namespace_name,
                query_type,
                query_text,
                trace_id,
                now,
            ),
        );
        let token = QueryCompletedToken::new(Arc::clone(&entry));
        let evicted = push_bounded(&mut self.log, entry, self.max_size);
        self.evicted = self.evicted.wrapping_add(evicted);
        token
    }

    /// The entries of the log as they are now, with its size and the number
    /// of entries that have left it.
    pub fn entries(&self) -> (snapshot: QueryLogEntries)
        ensures
            snapshot.entries@ == self.spec_entries(),
            snapshot.max_size == self.spec_max_size(),
            snapshot.evicted == self.spec_evicted(),
    {
        let mut entries: VecDeque<Arc<QueryLogEntry>> = VecDeque::new();
        let mut i: usize = 0;
        while i < self.log.len()
            invariant
                i <= self.log@.len(),
                entries@ == self.log@.take(i as int),
            decreases self.log@.len() - i,
        {
            entries.push_back(Arc::clone(&self.log[i]));
            assert(entries@ =~= self.log@.take(i + 1));
            i = i + 1;
        }
        assert(self.log@.take(i as int) =~= self.log@);
        QueryLogEntries { entries, max_size: self.max_size, evicted: self.evicted }
    }
}

} // verus!
