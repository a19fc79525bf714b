//! The token that drives a log entry through its phases.
//!
//! The type of a token says in which phase its query is, so that only the
//! steps that the phase allows can be taken. Each step takes the token and
//! the current time. A step that ends the query gives the token up; a token
//! can also be given up earlier with `cancel`, which records a
//! cancellation.
//!
//! An execution plan reports its compute time while it runs. The steps that
//! record compute time therefore take the plan as it is when they are
//! taken.

use vstd::prelude::*;

use std::sync::Arc;

use crate::query_log::entry::QueryLogEntry;
use crate::query_log::phase::QueryPhase;
use crate::query_log::plan::collect_compute_duration;
use crate::query_log::plan::spec_compute_nanos;
use crate::query_log::plan::spec_low_word;
use crate::query_log::plan::PlanNode;
use crate::query_log::state::EntryState;
use crate::query_log::time::Time;

verus! {

/// The state of a token whose query was received.
#[derive(Debug, Clone, Copy, Default)]
pub struct StateReceived;

/// The state of a token whose query was planned.
#[derive(Debug, Clone, Copy, Default)]
pub struct StatePlanned;

/// The state of a token whose query has its permit.
#[derive(Debug, Clone, Copy, Default)]
pub struct StatePermit;

/// Handed out when a query is received; records what becomes of the query.
///
/// The token is the only writer of its entry. It keeps the course of the
/// query itself and publishes it to the entry after every step.
#[derive(Debug)]
pub struct QueryCompletedToken<S> {
    entry: Arc<QueryLogEntry>,
    course: EntryState,
    state: S,
}

/// The compute time of a plan as it is kept in one word.
pub open spec fn spec_plan_compute(plan: PlanNode) -> u64 {
    spec_low_word(spec_compute_nanos(plan))
}

impl<S> QueryCompletedToken<S> {
    /// The entry that the token writes.
    pub closed spec fn spec_entry(&self) -> Arc<QueryLogEntry> {
        self.entry
    }

    /// The course of the query as the token has recorded it.
    pub closed spec fn spec_course(&self) -> EntryState {
        self.course
    }

    /// The entry that the token writes.
    pub fn entry(&self) -> (entry: &Arc<QueryLogEntry>)
        ensures
            *entry == self.spec_entry(),
    {
        &self.entry
    }

    /// The course of the query as the token has recorded it.
    pub fn course(&self) -> (course: EntryState)
        ensures
            course == self.spec_course(),
    {
        self.course
    }
}

impl QueryCompletedToken<StateReceived> {
    /// The token of a query that was just received, for its entry.
    pub fn new(entry: Arc<QueryLogEntry>) -> (token: Self)
        ensures
            token.spec_entry() == entry,
            token.spec_course() == EntryState::spec_received(entry.spec_issue_time()),
    {
        let course = EntryState::received(entry.issue_time());
        QueryCompletedToken { entry, course, state: StateReceived }
    }

    /// Records that the query was planned.
    pub fn planned(self, now: Time) -> (token: QueryCompletedToken<StatePlanned>)
        ensures
            token.spec_entry() == self.spec_entry(),
            token.spec_course() == self.spec_course().spec_planned(now),
    {
        let course = self.course.planned(now);
        self.entry.publish(&course);
        QueryCompletedToken { entry: self.entry, course, state: StatePlanned }
    }

    /// Records that planning failed, and gives the token up.
    pub fn fail(self, now: Time) -> (course: EntryState)
        ensures
            course == self.spec_course().spec_fail_planning(now),
    {
        let course = self.course.planning_failed(now).released(now, None);
        self.entry.publish(&course);
        course
    }

    /// Gives the token up before the query was planned: the query counts
    /// as cancelled.
    pub fn cancel(self, now: Time) -> (course: EntryState)
        ensures
            course == self.spec_course().spec_released(now, None),
    {
        let course = self.course.released(now, None);
        self.entry.publish(&course);
        course
    }
}

impl QueryCompletedToken<StatePlanned> {
    /// Records that the query got its permit.
    pub fn permit(self, now: Time) -> (token: QueryCompletedToken<StatePermit>)
        ensures
            token.spec_entry() == self.spec_entry(),
            token.spec_course() == self.spec_course().spec_permit(now),
    {
        let course = self.course.permit(now);
        self.entry.publish(&course);
        QueryCompletedToken { entry: self.entry, course, state: StatePermit }
    }

    /// Gives the token up before a permit was granted: the query counts as
    /// cancelled, and no compute time is recorded.
    pub fn cancel(self, now: Time) -> (course: EntryState)
        ensures
            course == self.spec_course().spec_released(now, None),
    {
        let course = self.course.released(now, None);
        self.entry.publish(&course);
        course
    }
}

impl QueryCompletedToken<StatePermit> {
    /// Records that the query succeeded, and gives the token up.
    pub fn success(self, now: Time, plan: &PlanNode) -> (course: EntryState)
        ensures
            course == self.spec_course().spec_success(now, spec_plan_compute(*plan)),
    {
        let compute = collect_compute_duration(plan);
        let course = self.course.executed(QueryPhase::Success, now, compute).released(
            now,
            Some(compute),
        );
        self.entry.publish(&course);
        course
    }

    /// Records that execution failed, and gives the token up.
    pub fn fail(self, now: Time, plan: &PlanNode) -> (course: EntryState)
        ensures
            course == self.spec_course().spec_fail(now, spec_plan_compute(*plan)),
    {
        let compute = collect_compute_duration(plan);
        let course = self.course.executed(QueryPhase::Fail, now, compute).released(
            now,
            Some(compute),
        );
        self.entry.publish(&course);
        course
    }

    /// Gives the token up before the query ended: the query counts as
    /// cancelled, and the compute time that its plan reports so far is
    /// recorded.
    pub fn cancel(self, now: Time, plan: &PlanNode) -> (course: EntryState)
        ensures
            course == self.spec_course().spec_released(now, Some(spec_plan_compute(*plan))),
    {
        let compute = collect_compute_duration(plan);
        let course = self.course.released(now, Some(compute));
        self.entry.publish(&course);
        course
    }
}

} // verus!
