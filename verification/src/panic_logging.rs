//! Telling apart the panics that a process reports.

use vstd::prelude::*;

use crate::bytes::text_eq;

verus! {

/// The kind of a panic, by its message.
#[derive(Debug, Clone, Copy, PartialEq, Eq, Hash, Structural)]
pub enum PanicType {
    /// A panic of no known kind.
    Unknown,
    /// An "offset" or "offset overflow" panic, as overly large string
    /// columns cause them.
    OffsetOverflow,
}

impl PanicType {
    /// The kind of a panic with this message.
    pub open spec fn spec_classify(message: Option<Seq<char>>) -> PanicType {
        match message {
            Some(text) => if text == "offset overflow"@ || text == "offset"@ {
                PanicType::OffsetOverflow
            } else {
                PanicType::Unknown
            },
            None => PanicType::Unknown,
        }
    }

    /// Every kind of panic.
    pub fn all() -> (kinds: [PanicType; 2])
        ensures
            kinds@ == seq![PanicType::Unknown, PanicType::OffsetOverflow],
    {
        let kinds = [PanicType::Unknown, PanicType::OffsetOverflow];
        assert(kinds@ =~= seq![PanicType::Unknown, PanicType::OffsetOverflow]);
        kinds
    }

    /// The name of the kind, as metrics label it.
    pub fn name(&self) -> (name: &'static str)
        ensures
            name@ == match *self {
                PanicType::Unknown => "unknown"@,
                PanicType::OffsetOverflow => "offset_overflow"@,
            },
    {
        match self {
            Self::Unknown => "unknown",
            Self::OffsetOverflow => "offset_overflow",
        }
    }

    /// The kind of a panic, by its message if it has one.
    pub fn classify(message: Option<&str>) -> (kind: PanicType)
        ensures
            kind == Self::spec_classify(
                match message {
                    Some(text) => Some(text@),
                    None => None,
                },
            ),
    {
        match message {
            Some(text) => {
                if text_eq(text, "offset overflow") || text_eq(text, "offset") {
                    PanicType::OffsetOverflow
                } else {
                    PanicType::Unknown
                }
            },
            None => PanicType::Unknown,
        }
    }
}

} // verus!
