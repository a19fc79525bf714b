//! The memory that a table template occupies.
//!
//! A template with an override occupies itself, the message it shares, one
//! slot for each part that the message has room for, and the strings of its
//! parts; a bucket part holds its number of buckets besides. A template
//! without an override occupies itself only.

use vstd::prelude::*;

verus! {

/// The bytes that a bucket part holds besides its name.
pub const BUCKET_COUNT_SIZE: usize = 4;

/// What one part of a message holds on the heap.
#[derive(Debug, Clone, Copy, PartialEq, Eq)]
pub enum PartFootprint {
    /// A part that the message left unset.
    Unset,
    /// A tag or time part, whose string has room for this many bytes.
    Text {
        /// The capacity of the string.
        capacity: usize,
    },
    /// A bucket part, whose name has room for this many bytes.
    Bucket {
        /// The capacity of the name.
        capacity: usize,
    },
}

/// The sizes that the size of a template is made of.
#[derive(Debug, Clone, PartialEq, Eq)]
pub struct TemplateFootprint {
    /// The size of a message, without what it holds on the heap.
    pub message: usize,
    /// The size of the slot of one part in a message.
    pub slot: usize,
    /// The number of parts that the message has room for.
    pub slots: usize,
    /// What each part holds on the heap.
    pub parts: Vec<PartFootprint>,
}

/// The bytes that one part holds on the heap.
pub open spec fn spec_part_size(part: PartFootprint) -> nat {
    match part {
        PartFootprint::Unset => 0,
        PartFootprint::Text { capacity } => capacity as nat,
        PartFootprint::Bucket { capacity } => (capacity + BUCKET_COUNT_SIZE) as nat,
    }
}

/// The bytes that the first `count` parts hold on the heap.
pub open spec fn spec_parts_size(parts: Seq<PartFootprint>, count: int) -> nat
    decreases count,
{
    if count <= 0 {
        0
    } else {
        spec_parts_size(parts, count - 1) + spec_part_size(parts[count - 1])
    }
}

/// The bytes that a template occupies; `footprint` is that of its message,
/// `None` for a template without an override.
pub open spec fn spec_template_size(own: usize, footprint: Option<TemplateFootprint>) -> nat {
    match footprint {
        Some(sizes) => (own + sizes.message + sizes.slots * sizes.slot) as nat + spec_parts_size(
            sizes.parts@,
            sizes.parts@.len() as int,
        ),
        None => own as nat,
    }
}

/// The parts size never shrinks as more parts are counted.
proof fn lemma_parts_size_grows(parts: Seq<PartFootprint>, from: int, to: int)
    requires
        0 <= from <= to,
    ensures
        spec_parts_size(parts, from) <= spec_parts_size(parts, to),
    decreases to - from,
{
    if from < to {
        lemma_parts_size_grows(parts, from, to - 1);
    }
}

/// The bytes that the parts of a message hold on the heap, `None` where
/// the sum does not fit.
pub fn parts_size(parts: &Vec<PartFootprint>) -> (size: Option<usize>)
    ensures
        match size {
            Some(bytes) => bytes == spec_parts_size(parts@, parts@.len() as int),
            None => spec_parts_size(parts@, parts@.len() as int) > usize::MAX,
        },
{
    let mut total: usize = 0;
    let mut i: usize = 0;
    while i < parts.len()
        invariant
            i <= parts@.len(),
            total == spec_parts_size(parts@, i as int),
        decreases parts@.len() - i,
    {
        let part: Option<usize> = match parts[i] {
            PartFootprint::Unset => Some(0),
            PartFootprint::Text { capacity } => Some(capacity),
            PartFootprint::Bucket { capacity } => capacity.checked_add(BUCKET_COUNT_SIZE),
        };
        let next = match part {
            Some(bytes) => total.checked_add(bytes),
            None => None,
        };
        match next {
            Some(sum) => {
                total = sum;
            },
            None => {
                proof {
                    lemma_parts_size_grows(parts@, i + 1, parts@.len() as int);
                }
                return None;
            },
        }
        i = i + 1;
    }
    Some(total)
}

/// The bytes that a template occupies, `None` where the sum does not fit.
pub fn template_size(own: usize, footprint: &Option<TemplateFootprint>) -> (size: Option<usize>)
    ensures
        match size {
            Some(bytes) => bytes == spec_template_size(own, *footprint),
            None => spec_template_size(own, *footprint) > usize::MAX,
        },
{
    match footprint {
        None => Some(own),
        Some(sizes) => {
            let slots = match sizes.slots.checked_mul(sizes.slot) {
                Some(bytes) => bytes,
                None => {
                    return None;
                },
            };
            let parts = match parts_size(&sizes.parts) {
                Some(bytes) => bytes,
                None => {
                    return None;
                },
            };
            let fixed = match own.checked_add(sizes.message) {
                Some(bytes) => bytes,
                None => {
                    return None;
                },
            };
            let shared = match fixed.checked_add(slots) {
                Some(bytes) => bytes,
                None => {
                    return None;
                },
            };
            shared.checked_add(parts)
        },
    }
}

} // verus!
