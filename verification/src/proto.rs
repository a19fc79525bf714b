//! The partition template message as it is stored and sent.
//!
//! A template message holds a repeated `parts` field; each part carries at
//! most one of a tag value, a time format or a bucket.

use vstd::prelude::*;

pub mod template_part;

verus! {

/// A bucketing part: the tag column to hash and the number of buckets.
#[derive(Debug, Clone, PartialEq, Eq, Hash)]
pub struct Bucket {
    /// Name of the tag column whose value is hashed.
    pub tag_name: String,
    /// Number of buckets the hash is reduced to.
    pub num_buckets: u32,
}

/// One part of a template message.
#[derive(Debug, Clone, PartialEq, Eq, Hash)]
pub struct TemplatePart {
    /// The part's content; a message may leave it unset.
    pub part: Option<template_part::Part>,
}

/// A partition template message.
#[derive(Debug, Clone, PartialEq, Eq, Hash)]
pub struct PartitionTemplate {
    /// The parts, in key order.
    pub parts: Vec<TemplatePart>,
}

/// What a set template part says, with its strings as character sequences.
pub enum PartSpec {
    /// The value of the named tag column.
    TagValue(Seq<char>),
    /// The row timestamp rendered through a strftime format.
    TimeFormat(Seq<char>),
    /// The bucket id of the named tag column's value, out of so many buckets.
    Bucket(Seq<char>, u32),
}

impl TemplatePart {
    /// The part as a specification value, `None` where the message left it unset.
    pub open spec fn spec_part(&self) -> Option<PartSpec> {
        match self.part {
            Some(template_part::Part::TagValue(name)) => Some(PartSpec::TagValue(name@)),
            Some(template_part::Part::TimeFormat(format)) => Some(PartSpec::TimeFormat(format@)),
            Some(template_part::Part::Bucket(bucket)) => Some(
                PartSpec::Bucket(bucket.tag_name@, bucket.num_buckets),
            ),
            None => None,
        }
    }
}

impl View for PartitionTemplate {
    type V = Seq<Option<PartSpec>>;

    open spec fn view(&self) -> Seq<Option<PartSpec>> {
        Seq::new(self.parts@.len(), |i: int| self.parts@[i].spec_part())
    }
}

} // verus!
