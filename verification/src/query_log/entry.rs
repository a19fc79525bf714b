//! A log entry as its readers see it.
//!
//! What identifies the query never changes. The course of the query is held
//! in atomics, so that the one token that writes it and any number of
//! readers can share the entry. The phase is written last and read first:
//! a reader that sees a phase sees the durations recorded on the way to it.

use vstd::prelude::*;

use std::sync::atomic::AtomicBool;
use std::sync::atomic::AtomicU8;
use std::sync::atomic::Ordering;

use crate::query_log::duration::spec_decode_duration;
use crate::query_log::duration::AtomicDuration;
use crate::query_log::phase::QueryPhase;
use crate::query_log::state::EntryState;
use crate::query_log::time::Time;

verus! {

/// What is known of one query.
#[derive(Debug)]
pub struct QueryLogEntry {
    /// The id of the query, unique among the entries of a log.
    pub id: u128,
    /// The id of the namespace that the query ran in.
    pub namespace_id: i64,
    /// The name of that namespace.
    pub namespace_name: String,
    /// The kind of query, such as `sql`.
    pub query_type: &'static str,
    /// The text of the query.
    pub query_text: String,
    /// The id of the trace that the query belongs to, if any.
    pub trace_id: Option<u128>,
    /// When the query was received.
    pub issue_time: Time,
    permit_duration: AtomicDuration,
    plan_duration: AtomicDuration,
    execute_duration: AtomicDuration,
    end2end_duration: AtomicDuration,
    compute_duration: AtomicDuration,
    success: AtomicBool,
    running: AtomicBool,
    phase: AtomicU8,
}

impl QueryLogEntry {
    /// The id of the query.
    pub closed spec fn spec_id(&self) -> u128 {
        self.id
    }

    /// The id of the namespace that the query ran in.
    pub closed spec fn spec_namespace_id(&self) -> i64 {
        self.namespace_id
    }

    /// The name of that namespace.
    pub closed spec fn spec_namespace_name(&self) -> String {
        self.namespace_name
    }

    /// The kind of query.
    pub closed spec fn spec_query_type(&self) -> &'static str {
        self.query_type
    }

    /// The text of the query.
    pub closed spec fn spec_query_text(&self) -> String {
        self.query_text
    }

    /// The id of the trace that the query belongs to, if any.
    pub closed spec fn spec_trace_id(&self) -> Option<u128> {
        self.trace_id
    }

    /// When the query was received.
    pub closed spec fn spec_issue_time(&self) -> Time {
        self.issue_time
    }

    /// When the query was received.
    pub fn issue_time(&self) -> (time: Time)
        ensures
            time == self.spec_issue_time(),
    {
        self.issue_time
    }

    /// The entry of a query that was received at `issue_time`: in phase
    /// `Received`, running, with no duration set.
    pub fn new(
        id: u128,
        namespace_id: i64,
        namespace_name: String,
        query_type: &'static str,
        query_text: String,
        trace_id: Option<u128>,
        issue_time: Time,
    ) -> (entry: Self)
        ensures
            entry.spec_id() == id,
            entry.spec_namespace_id() == namespace_id,
            entry.spec_namespace_name() == namespace_name,
            entry.spec_query_type() == query_type,
            entry.spec_query_text() == query_text,
            entry.spec_trace_id() == trace_id,
            entry.spec_issue_time() == issue_time,
    {
        QueryLogEntry {
            id,
            namespace_id,
            namespace_name,
            query_type,
            query_text,
            trace_id,
            issue_time,
            permit_duration: AtomicDuration::new(),
            plan_duration: AtomicDuration::new(),
            execute_duration: AtomicDuration::new(),
            end2end_duration: AtomicDuration::new(),
            compute_duration: AtomicDuration::new(),
            success: AtomicBool::new(false),
            running: AtomicBool::new(true),
            phase: AtomicU8::new(QueryPhase::Received.id()),
        }
    }

    /// The phase of the query: what [`QueryPhase::from_word`] makes of the
    /// word that is stored now. The token may store at any moment, so
    /// nothing is promised of which word is read.
    pub fn phase(&self) -> QueryPhase {
        QueryPhase::from_word(self.phase.load(Ordering::SeqCst))
    }

    /// The time it took to get a permit, from when the query was planned.
    ///
    /// It is the duration that the word stored now stands for, `None` where
    /// that word says "not set".
    pub fn permit_duration(&self) -> (duration: Option<u64>)
        ensures
            exists|raw: i64| duration == spec_decode_duration(raw),
    {
        self.permit_duration.get()
    }

    /// The time it took to plan the query, from when it was received.
    ///
    /// It is the duration that the word stored now stands for, `None` where
    /// that word says "not set".
    pub fn plan_duration(&self) -> (duration: Option<u64>)
        ensures
            exists|raw: i64| duration == spec_decode_duration(raw),
    {
        self.plan_duration.get()
    }

    /// The time it took to execute the query, from when it got its permit.
    ///
    /// It is the duration that the word stored now stands for, `None` where
    /// that word says "not set".
    pub fn execute_duration(&self) -> (duration: Option<u64>)
        ensures
            exists|raw: i64| duration == spec_decode_duration(raw),
    {
        self.execute_duration.get()
    }

    /// The time from when the query was received to when it ended.
    ///
    /// It is the duration that the word stored now stands for, `None` where
    /// that word says "not set".
    pub fn end2end_duration(&self) -> (duration: Option<u64>)
        ensures
            exists|raw: i64| duration == spec_decode_duration(raw),
    {
        self.end2end_duration.get()
    }

    /// The compute time that the plan of the query reported.
    ///
    /// It is the duration that the word stored now stands for, `None` where
    /// that word says "not set".
    pub fn compute_duration(&self) -> (duration: Option<u64>)
        ensures
            exists|raw: i64| duration == spec_decode_duration(raw),
    {
        self.compute_duration.get()
    }

    /// Whether the query succeeded.
    pub fn success(&self) -> bool {
        self.success.load(Ordering::SeqCst)
    }

    /// Whether the query is under way, in whatever phase.
    pub fn running(&self) -> bool {
        self.running.load(Ordering::SeqCst)
    }

    /// Whether the query was cancelled: whether the phase that is read now
    /// is `Cancel`.
    pub fn cancelled(&self) -> bool {
        self.phase().is_cancel()
    }

    /// Reads the course of the query, field by field. A writer may be at
    /// work in between, so the fields need not belong to one moment.
    pub fn snapshot(&self) -> (state: EntryState)
        ensures
            state.issue_time == self.spec_issue_time(),
    {
        let phase = self.phase();
        EntryState {
            issue_time: self.issue_time,
            phase,
            plan_duration: self.plan_duration(),
            permit_duration: self.permit_duration(),
            execute_duration: self.execute_duration(),
            end2end_duration: self.end2end_duration(),
            compute_duration: self.compute_duration(),
            success: self.success(),
            running: self.running(),
        }
    }

    /// Writes the course of the query for the readers to see: the
    /// durations, then whether it succeeded and runs, and the phase last.
    pub fn publish(&self, state: &EntryState) {
        self.plan_duration.set(state.plan_duration);
        self.permit_duration.set(state.permit_duration);
        self.execute_duration.set(state.execute_duration);
        self.end2end_duration.set(state.end2end_duration);
        self.compute_duration.set(state.compute_duration);
        self.success.store(state.success, Ordering::SeqCst);
        self.running.store(state.running, Ordering::SeqCst);
        self.phase.store(state.phase.id(), Ordering::SeqCst);
    }
}

} // verus!
