//! The phases of a query.
//!
//! ```text
//!     +-------------------------------+---> fail
//!     |                               |
//! received ---> planned ---> permit ---+
//!     |           |           |       |
//!     |           |           |       +---> success
//!     |           |           |
//!     +-----------+-----------+-----------> cancel
//! ```

use vstd::prelude::*;

verus! {

/// The phase of a query.
#[derive(Debug, Clone, Copy, PartialEq, Eq, Structural)]
pub enum QueryPhase {
    /// The query was received and nothing else has happened. This is where
    /// every query starts.
    Received,
    /// The query was planned and waits for a permit.
    Planned,
    /// The query has its permit and is, in all likelihood, being executed.
    Permit,
    /// The query was cancelled. No phase follows.
    Cancel,
    /// The query was executed to its end. No phase follows.
    Success,
    /// The query failed, while it was planned or while it was executed. No
    /// phase follows.
    Fail,
}

impl QueryPhase {
    /// The number that stands for the phase.
    pub open spec fn spec_id(self) -> u8 {
        match self {
            QueryPhase::Received => 0,
            QueryPhase::Planned => 1,
            QueryPhase::Permit => 2,
            QueryPhase::Cancel => 3,
            QueryPhase::Success => 4,
            QueryPhase::Fail => 5,
        }
    }

    /// The phase that a number stands for; numbers above 5 stand for none.
    pub open spec fn spec_from_id(id: u8) -> Option<QueryPhase> {
        if id == 0 {
            Some(QueryPhase::Received)
        } else if id == 1 {
            Some(QueryPhase::Planned)
        } else if id == 2 {
            Some(QueryPhase::Permit)
        } else if id == 3 {
            Some(QueryPhase::Cancel)
        } else if id == 4 {
            Some(QueryPhase::Success)
        } else if id == 5 {
            Some(QueryPhase::Fail)
        } else {
            None
        }
    }

    /// The name of the phase as a character sequence.
    pub open spec fn spec_name(self) -> Seq<char> {
        match self {
            QueryPhase::Received => "received"@,
            QueryPhase::Planned => "planned"@,
            QueryPhase::Permit => "permit"@,
            QueryPhase::Cancel => "cancel"@,
            QueryPhase::Success => "success"@,
            QueryPhase::Fail => "fail"@,
        }
    }

    /// The phase that a stored word stands for: the phase whose number it
    /// is, and `Received` for a word that is the number of no phase.
    pub open spec fn spec_from_word(word: u8) -> QueryPhase {
        match Self::spec_from_id(word) {
            Some(phase) => phase,
            None => QueryPhase::Received,
        }
    }

    /// True for the phases that no phase follows.
    pub open spec fn spec_is_terminal(self) -> bool {
        self is Cancel || self is Success || self is Fail
    }

    /// The name of the phase.
    pub fn name(&self) -> (name: &'static str)
        ensures
            name@ == self.spec_name(),
    {
        match self {
            Self::Received => "received",
            Self::Planned => "planned",
            Self::Permit => "permit",
            Self::Cancel => "cancel",
            Self::Success => "success",
            Self::Fail => "fail",
        }
    }

    /// The number that stands for the phase.
    pub fn id(&self) -> (id: u8)
        ensures
            id == self.spec_id(),
            id <= 5,
            Self::spec_from_id(id) == Some(*self),
    {
        match self {
            Self::Received => 0,
            Self::Planned => 1,
            Self::Permit => 2,
            Self::Cancel => 3,
            Self::Success => 4,
            Self::Fail => 5,
        }
    }

    /// The phase that a number stands for.
    pub fn from_id(id: u8) -> (phase: Self)
        requires
            id <= 5,
        ensures
            Self::spec_from_id(id) == Some(phase),
            phase.spec_id() == id,
    {
        match id {
            0 => Self::Received,
            1 => Self::Planned,
            2 => Self::Permit,
            3 => Self::Cancel,
            4 => Self::Success,
            _ => Self::Fail,
        }
    }

    /// The phase that a number stands for, or `None` for a number that
    /// stands for no phase.
    pub fn try_from_id(id: u8) -> (phase: Option<Self>)
        ensures
            phase == Self::spec_from_id(id),
    {
        if id <= 5 {
            Some(Self::from_id(id))
        } else {
            None
        }
    }

    /// The phase that a stored word stands for. Only numbers of phases are
    /// ever stored; any other word reads as `Received`.
    pub fn from_word(word: u8) -> (phase: Self)
        ensures
            phase == Self::spec_from_word(word),
    {
        match Self::try_from_id(word) {
            Some(phase) => phase,
            None => QueryPhase::Received,
        }
    }

    /// Tells whether the phase is `Cancel`.
    pub fn is_cancel(&self) -> (cancel: bool)
        ensures
            cancel == (*self is Cancel),
    {
        match self {
            Self::Cancel => true,
            _ => false,
        }
    }
}

} // verus!
