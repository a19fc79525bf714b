//! The state of a log entry and the steps that change it.
//!
//! | From     | To      | Step                | What is recorded                         |
//! |----------|---------|---------------------|------------------------------------------|
//! | Received | Planned | the query is planned| plan duration                            |
//! | Received | Fail    | planning fails      | plan and end-to-end duration             |
//! | Planned  | Permit  | a permit is granted | permit duration                          |
//! | Permit   | Success | the query succeeds  | execute, compute and end-to-end duration |
//! | Permit   | Fail    | the query fails     | execute, compute and end-to-end duration |
//! | Received, Planned, Permit | Cancel | the token is given up | end-to-end duration, and from Permit the compute time so far |
//!
//! Success, Fail and Cancel are final: giving the token up after one of
//! them changes no phase. A clock that runs backwards leaves the duration
//! that was to be recorded unset and changes nothing else.

use vstd::prelude::*;

use crate::query_log::duration::spec_set_relative;
use crate::query_log::duration::spec_stored;
use crate::query_log::phase::QueryPhase;
use crate::query_log::time::Time;

verus! {

/// What a log entry holds of the course of its query.
#[derive(Debug, Clone, Copy, PartialEq, Eq, Structural)]
pub struct EntryState {
    /// When the query was received.
    pub issue_time: Time,
    /// The phase of the query.
    pub phase: QueryPhase,
    /// The time it took to plan the query, from when it was received.
    pub plan_duration: Option<u64>,
    /// The time it took to get a permit, from when the query was planned.
    pub permit_duration: Option<u64>,
    /// The time it took to execute the query, from when it got its permit.
    pub execute_duration: Option<u64>,
    /// The time from when the query was received to when it ended.
    pub end2end_duration: Option<u64>,
    /// The compute time that the plan of the query reported.
    pub compute_duration: Option<u64>,
    /// Whether the query succeeded.
    pub success: bool,
    /// Whether the query is under way, in whatever phase.
    pub running: bool,
}

/// The instant `first`, and then `second`, after `origin`, where both are
/// set and the instant can be represented.
pub open spec fn spec_origin_after(origin: Time, first: Option<u64>, second: Option<u64>) -> Option<
    Time,
> {
    match (first, second) {
        (Some(a), Some(b)) => match origin.spec_add(a) {
            Some(later) => later.spec_add(b),
            None => None,
        },
        _ => None,
    }
}

/// What is stored over `current` for the time from an origin to `now`: with
/// no origin, or a clock that ran backwards, `current` stays.
pub open spec fn spec_set_since(current: Option<u64>, origin: Option<Time>, now: Time) -> Option<
    u64,
> {
    match origin {
        Some(origin) => spec_set_relative(current, origin, now),
        None => current,
    }
}

impl EntryState {
    /// The state of an entry whose query was received at `issue_time`.
    pub open spec fn spec_received(issue_time: Time) -> EntryState {
        EntryState {
            issue_time,
            phase: QueryPhase::Received,
            plan_duration: None,
            permit_duration: None,
            execute_duration: None,
            end2end_duration: None,
            compute_duration: None,
            success: false,
            running: true,
        }
    }

    /// True when the query was cancelled.
    pub open spec fn spec_cancelled(self) -> bool {
        self.phase is Cancel
    }

    /// The state after the query was planned at `now`.
    pub open spec fn spec_planned(self, now: Time) -> EntryState {
        EntryState {
            plan_duration: spec_set_relative(self.plan_duration, self.issue_time, now),
            phase: QueryPhase::Planned,
            ..self
        }
    }

    /// The state after planning failed at `now`, before the token is given
    /// up.
    pub open spec fn spec_planning_failed(self, now: Time) -> EntryState {
        EntryState {
            plan_duration: spec_set_relative(self.plan_duration, self.issue_time, now),
            phase: QueryPhase::Fail,
            ..self
        }
    }

    /// The state after a permit was granted at `now`. The permit duration
    /// counts from the end of planning; where no plan duration is set, none
    /// is recorded.
    pub open spec fn spec_permit(self, now: Time) -> EntryState {
        EntryState {
            permit_duration: spec_set_since(
                self.permit_duration,
                spec_origin_after(self.issue_time, self.plan_duration, Some(0u64)),
                now,
            ),
            phase: QueryPhase::Permit,
            ..self
        }
    }

    /// The state after the query ended at `now` in `phase`, before the
    /// token is given up. The execute duration counts from the grant of the
    /// permit; where plan or permit duration is not set, none is recorded.
    /// `compute` is the compute time of the plan.
    pub open spec fn spec_executed(self, phase: QueryPhase, now: Time, compute: u64) -> EntryState {
        EntryState {
            success: self.success || phase is Success,
            phase,
            execute_duration: spec_set_since(
                self.execute_duration,
                spec_origin_after(self.issue_time, self.permit_duration, self.plan_duration),
                now,
            ),
            compute_duration: spec_stored(compute),
            ..self
        }
    }

    /// True for the phases in which a query is under way: `Received`,
    /// `Planned` and `Permit`.
    pub open spec fn spec_is_open(self) -> bool {
        self.phase is Received || self.phase is Planned || self.phase is Permit
    }

    /// The state after the token was given up at `now`. A query that is
    /// under way counts as cancelled, and the compute time of its plan is
    /// recorded where the token hands one over, as a token with a permit
    /// does. A query that has succeeded, failed or been cancelled keeps its
    /// phase and its compute time. The end-to-end duration is recorded and
    /// the query no longer runs.
    pub open spec fn spec_released(self, now: Time, compute: Option<u64>) -> EntryState {
        EntryState {
            phase: if self.spec_is_open() {
                QueryPhase::Cancel
            } else {
                self.phase
            },
            compute_duration: if self.spec_is_open() && compute is Some {
                spec_stored(compute->0)
            } else {
                self.compute_duration
            },
            end2end_duration: spec_set_relative(self.end2end_duration, self.issue_time, now),
            running: false,
            ..self
        }
    }

    /// The state after planning failed at `now` and the token was given up.
    pub open spec fn spec_fail_planning(self, now: Time) -> EntryState {
        self.spec_planning_failed(now).spec_released(now, None)
    }

    /// The state after the query succeeded at `now` and the token was given
    /// up.
    pub open spec fn spec_success(self, now: Time, compute: u64) -> EntryState {
        self.spec_executed(QueryPhase::Success, now, compute).spec_released(now, Some(compute))
    }

    /// The state after execution failed at `now` and the token was given up.
    pub open spec fn spec_fail(self, now: Time, compute: u64) -> EntryState {
        self.spec_executed(QueryPhase::Fail, now, compute).spec_released(now, Some(compute))
    }

    /// The state of an entry whose query was received at `issue_time`.
    pub fn received(issue_time: Time) -> (state: EntryState)
        ensures
            state == Self::spec_received(issue_time),
    {
        EntryState {
            issue_time,
            phase: QueryPhase::Received,
            plan_duration: None,
            permit_duration: None,
            execute_duration: None,
            end2end_duration: None,
            compute_duration: None,
            success: false,
            running: true,
        }
    }

    /// Tells whether the query was cancelled.
    pub fn cancelled(&self) -> (cancelled: bool)
        ensures
            cancelled == self.spec_cancelled(),
    {
        match self.phase {
            QueryPhase::Cancel => true,
            _ => false,
        }
    }

    /// Records that the query was planned at `now`.
    pub fn planned(self, now: Time) -> (next: EntryState)
        ensures
            next == self.spec_planned(now),
    {
        let mut next = self;
        next.plan_duration = set_relative(self.plan_duration, self.issue_time, now);
        next.phase = QueryPhase::Planned;
        next
    }

    /// Records that planning failed at `now`.
    pub fn planning_failed(self, now: Time) -> (next: EntryState)
        ensures
            next == self.spec_planning_failed(now),
    {
        let mut next = self;
        next.plan_duration = set_relative(self.plan_duration, self.issue_time, now);
        next.phase = QueryPhase::Fail;
        next
    }

    /// Records that a permit was granted at `now`.
    pub fn permit(self, now: Time) -> (next: EntryState)
        ensures
            next == self.spec_permit(now),
    {
        let mut next = self;
        let origin = origin_after(self.issue_time, self.plan_duration, Some(0));
        next.permit_duration = set_since(self.permit_duration, origin, now);
        next.phase = QueryPhase::Permit;
        next
    }

    /// Records that the query ended at `now` in `phase`, its plan having
    /// reported the compute time `compute`.
    pub fn executed(self, phase: QueryPhase, now: Time, compute: u64) -> (next: EntryState)
        ensures
            next == self.spec_executed(phase, now, compute),
    {
        let mut next = self;
        let succeeded = match phase {
            QueryPhase::Success => true,
            _ => false,
        };
        next.success = self.success || succeeded;
        next.phase = phase;
        let origin = origin_after(self.issue_time, self.permit_duration, self.plan_duration);
        next.execute_duration = set_since(self.execute_duration, origin, now);
        next.compute_duration = stored(compute);
        next
    }

    /// Tells whether the query is under way: whether its phase is
    /// `Received`, `Planned` or `Permit`.
    pub fn is_open(&self) -> (open: bool)
        ensures
            open == self.spec_is_open(),
    {
        match self.phase {
            QueryPhase::Received => true,
            QueryPhase::Planned => true,
            QueryPhase::Permit => true,
            _ => false,
        }
    }

    /// Records that the token was given up at `now`; `compute` is the
    /// compute time of the plan so far, which a token with a permit hands
    /// over.
    pub fn released(self, now: Time, compute: Option<u64>) -> (next: EntryState)
        ensures
            next == self.spec_released(now, compute),
    {
        let mut next = self;
        if self.is_open() {
            next.phase = QueryPhase::Cancel;
            match compute {
                Some(nanos) => {
                    next.compute_duration = stored(nanos);
                },
                None => {},
            }
        }
        next.end2end_duration = set_relative(self.end2end_duration, self.issue_time, now);
        next.running = false;
        next
    }
}

/// What a reader sees after `nanos` was stored.
pub fn stored(nanos: u64) -> (seen: Option<u64>)
    ensures
        seen == spec_stored(nanos),
{
    if nanos == u64::MAX {
        None
    } else {
        Some(nanos)
    }
}

/// What a reader sees after the time from `origin` to `now` was to be
/// stored over `current`.
pub fn set_relative(current: Option<u64>, origin: Time, now: Time) -> (seen: Option<u64>)
    ensures
        seen == spec_set_relative(current, origin, now),
{
    match now.checked_duration_since(origin) {
        Some(nanos) => stored(nanos),
        None => current,
    }
}

/// What a reader sees after the time from an optional origin to `now` was
/// to be stored over `current`.
pub fn set_since(current: Option<u64>, origin: Option<Time>, now: Time) -> (seen: Option<u64>)
    ensures
        seen == spec_set_since(current, origin, now),
{
    match origin {
        Some(origin) => set_relative(current, origin, now),
        None => current,
    }
}

/// The instant `first`, and then `second`, after `origin`.
pub fn origin_after(origin: Time, first: Option<u64>, second: Option<u64>) -> (later: Option<Time>)
    ensures
        later == spec_origin_after(origin, first, second),
{
    match (first, second) {
        (Some(a), Some(b)) => match origin.checked_add(a) {
            Some(later) => later.checked_add(b),
            None => None,
        },
        _ => None,
    }
}

/// A query that is planned, permitted and executed while the clock runs
/// forward ends in success with each duration the time its phase took, and
/// the durations of the phases add up to the end-to-end duration.
pub proof fn lemma_success_durations(issue: Time, planned: Time, permit: Time, end: Time, compute: u64)
    requires
        issue.nanos <= planned.nanos <= permit.nanos <= end.nanos,
        end.nanos - issue.nanos < u64::MAX,
    ensures
        ({
            let state = EntryState::spec_received(issue).spec_planned(planned).spec_permit(
                permit,
            ).spec_success(end, compute);
            &&& state.phase is Success
            &&& state.success
            &&& !state.running
            &&& !state.spec_cancelled()
            &&& state.plan_duration == Some((planned.nanos - issue.nanos) as u64)
            &&& state.permit_duration == Some((permit.nanos - planned.nanos) as u64)
            &&& state.execute_duration == Some((end.nanos - permit.nanos) as u64)
            &&& state.end2end_duration == Some((end.nanos - issue.nanos) as u64)
            &&& state.plan_duration->0 + state.permit_duration->0 + state.execute_duration->0
                == state.end2end_duration->0
            &&& state.compute_duration == spec_stored(compute)
        }),
{
}

/// A query whose planning fails while the clock runs forward ends in
/// failure, with the same plan and end-to-end duration and nothing else.
pub proof fn lemma_planning_failure_durations(issue: Time, end: Time)
    requires
        issue.nanos <= end.nanos,
        end.nanos - issue.nanos < u64::MAX,
    ensures
        ({
            let state = EntryState::spec_received(issue).spec_fail_planning(end);
            &&& state.phase is Fail
            &&& !state.success
            &&& !state.running
            &&& state.plan_duration == Some((end.nanos - issue.nanos) as u64)
            &&& state.end2end_duration == state.plan_duration
            &&& state.permit_duration is None
            &&& state.execute_duration is None
            &&& state.compute_duration is None
        }),
{
}

/// Giving up the token of a query that is under way cancels the query, and
/// records the compute time that is handed over; giving it up after the
/// query succeeded, failed or was cancelled changes neither phase nor
/// compute time. Giving it up always ends the run and changes no plan,
/// permit or execute duration.
pub proof fn lemma_release_cancels(state: EntryState, now: Time, compute: Option<u64>)
    ensures
        !state.spec_released(now, compute).running,
        state.spec_released(now, compute).success == state.success,
        state.spec_is_open() ==> state.spec_released(now, compute).spec_cancelled(),
        state.spec_is_open() && compute is Some ==> state.spec_released(
            now,
            compute,
        ).compute_duration == spec_stored(compute->0),
        !state.spec_is_open() ==> state.spec_released(now, compute).phase == state.phase,
        !state.spec_is_open() || compute is None ==> state.spec_released(
            now,
            compute,
        ).compute_duration == state.compute_duration,
        state.spec_released(now, compute).plan_duration == state.plan_duration,
        state.spec_released(now, compute).permit_duration == state.permit_duration,
        state.spec_released(now, compute).execute_duration == state.execute_duration,
        state.spec_released(now, compute).end2end_duration == spec_set_relative(
            state.end2end_duration,
            state.issue_time,
            now,
        ),
{
}

/// A query that succeeds ends in `Success`, and one whose execution fails
/// ends in `Fail`, whatever the clock reads: a clock that ran backwards
/// leaves a duration unset and changes no phase. Neither counts as
/// cancelled, neither runs any longer, and both hold the compute time of
/// the plan.
pub proof fn lemma_end_is_final(state: EntryState, now: Time, compute: u64)
    ensures
        state.spec_success(now, compute).phase is Success,
        state.spec_success(now, compute).success,
        !state.spec_success(now, compute).running,
        !state.spec_success(now, compute).spec_cancelled(),
        state.spec_success(now, compute).compute_duration == spec_stored(compute),
        state.spec_fail(now, compute).phase is Fail,
        state.spec_fail(now, compute).success == state.success,
        !state.spec_fail(now, compute).running,
        !state.spec_fail(now, compute).spec_cancelled(),
        state.spec_fail(now, compute).compute_duration == spec_stored(compute),
        state.spec_fail_planning(now).phase is Fail,
        !state.spec_fail_planning(now).running,
        !state.spec_fail_planning(now).spec_cancelled(),
        state.spec_success(now, compute).plan_duration == state.plan_duration,
        state.spec_success(now, compute).permit_duration == state.permit_duration,
        state.spec_success(now, compute).execute_duration == spec_set_since(
            state.execute_duration,
            spec_origin_after(state.issue_time, state.permit_duration, state.plan_duration),
            now,
        ),
{
}

/// A query that succeeds at a moment before its permit was granted, by a
/// clock that ran backwards, still ends in `Success`; only its execute
/// duration stays unset.
pub proof fn lemma_success_under_regression(
    issue: Time,
    planned: Time,
    permit: Time,
    end: Time,
    compute: u64,
)
    requires
        issue.nanos <= planned.nanos <= permit.nanos,
        issue.nanos <= end.nanos < permit.nanos,
        permit.nanos - issue.nanos < u64::MAX,
    ensures
        ({
            let state = EntryState::spec_received(issue).spec_planned(planned).spec_permit(
                permit,
            ).spec_success(end, compute);
            &&& state.phase is Success
            &&& state.success
            &&& !state.running
            &&& state.execute_duration is None
            &&& state.plan_duration == Some((planned.nanos - issue.nanos) as u64)
            &&& state.permit_duration == Some((permit.nanos - planned.nanos) as u64)
            &&& state.end2end_duration == Some((end.nanos - issue.nanos) as u64)
        }),
{
}

} // verus!
