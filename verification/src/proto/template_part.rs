//! The content of one template part.

use vstd::prelude::*;

use crate::proto::Bucket;

verus! {

/// Exactly one of the three kinds of template part.
#[derive(Debug, Clone, PartialEq, Eq, Hash)]
pub enum Part {
    /// A tag column name.
    TagValue(String),
    /// A strftime format applied to the row timestamp.
    TimeFormat(String),
    /// A bucketing part.
    Bucket(Bucket),
}

} // verus!
