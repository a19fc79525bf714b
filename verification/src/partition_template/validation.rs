//! Validation of template messages.
//!
//! A template is accepted where it has one to eight parts, every time format
//! is non-empty, free of `%#z` and renders, every tag or bucket name is
//! non-empty, does not hold the reserved name `time` and is used once only,
//! and every bucket count lies in `[1, 100_000)`.
//!
//! Faults are looked for kind by kind: first a faulty time format, then an
//! empty or reserved name, then a repeated name, then a bucket count out of
//! range. Of the faults of one kind, that of the earliest part is reported.

use vstd::prelude::*;
use vstd::utf8::*;

use std::sync::Arc;

use crate::bytes::bytes_eq;
use crate::bytes::contains_bytes;
use crate::bytes::lemma_same_bytes_same_text;
use crate::bytes::spec_contains;
use crate::partition_template::strftime::renders_sample;
use crate::partition_template::strftime::spec_renders_sample;
use crate::proto::PartitionTemplate;
use crate::proto::PartSpec;
use crate::proto::template_part::Part;
use crate::proto::TemplatePart;

verus! {

/// The most parts a template may have.
pub const MAXIMUM_NUMBER_OF_TEMPLATE_PARTS: usize = 8;

/// The tag name that is reserved for the timestamp column.
pub const TAG_VALUE_KEY_TIME: &'static str = "time";

/// The smallest number of buckets a bucket part may ask for.
pub const MINIMUM_BUCKET_QUANTITY: u32 = 1;

/// The number of buckets from which on a bucket part is refused.
pub const BUCKET_QUANTITY_LIMIT: u32 = 100_000;

/// Why a template message is refused.
#[derive(Debug)]
pub enum ValidationError {
    /// The template has no parts.
    NoParts,
    /// The template has more parts than are allowed.
    TooManyParts {
        /// The number of parts the template has.
        specified: usize,
    },
    /// A time format is empty, forbidden or does not render.
    InvalidStrftime(String),
    /// A tag or bucket name is empty or holds the reserved name.
    InvalidTagValue(String),
    /// A bucket count is outside the allowed range.
    InvalidNumberOfBuckets(u32),
    /// A tag or bucket name is used by an earlier part already.
    RepeatedTagValue(String),
}

/// A validation fault with its texts as character sequences.
pub enum ValidationErrorSpec {
    /// The template has no parts.
    NoParts,
    /// The template has this many parts, which is too many.
    TooManyParts { specified: usize },
    /// The time format, or the reason it is refused.
    InvalidStrftime(Seq<char>),
    /// The name, or the reason it is refused.
    InvalidTagValue(Seq<char>),
    /// The bucket count that is out of range.
    InvalidNumberOfBuckets(u32),
    /// The name that is used twice.
    RepeatedTagValue(Seq<char>),
}

impl View for ValidationError {
    type V = ValidationErrorSpec;

    open spec fn view(&self) -> ValidationErrorSpec {
        match *self {
            ValidationError::NoParts => ValidationErrorSpec::NoParts,
            ValidationError::TooManyParts { specified } => ValidationErrorSpec::TooManyParts {
                specified,
            },
            ValidationError::InvalidStrftime(text) => ValidationErrorSpec::InvalidStrftime(text@),
            ValidationError::InvalidTagValue(text) => ValidationErrorSpec::InvalidTagValue(text@),
            ValidationError::InvalidNumberOfBuckets(count) => {
                ValidationErrorSpec::InvalidNumberOfBuckets(count)
            },
            ValidationError::RepeatedTagValue(text) => ValidationErrorSpec::RepeatedTagValue(
                text@,
            ),
        }
    }
}

/// True when the UTF-8 bytes of `needle` occur in those of `text`.
pub open spec fn spec_text_contains(text: Seq<char>, needle: Seq<char>) -> bool {
    spec_contains(encode_utf8(text), encode_utf8(needle))
}

/// The name of a tag or bucket part; a time format has none.
pub open spec fn spec_part_name(part: Option<PartSpec>) -> Option<Seq<char>> {
    match part {
        Some(PartSpec::TagValue(name)) => Some(name),
        Some(PartSpec::Bucket(name, _)) => Some(name),
        _ => None,
    }
}

/// True when one of the parts before index `index` has the name `name`.
pub open spec fn spec_name_used_before(parts: Seq<Option<PartSpec>>, index: int, name: Seq<char>) -> bool {
    exists|j: int| 0 <= j < index && j < parts.len() && spec_part_name(#[trigger] parts[j]) == Some(name)
}

/// The fault of a time format, if it has one; `renders` says whether the
/// format renders a sample instant.
pub open spec fn spec_format_error_given(format: Seq<char>, renders: bool) -> Option<
    ValidationErrorSpec,
> {
    if format.len() == 0 {
        Some(ValidationErrorSpec::InvalidStrftime(format))
    } else if spec_text_contains(format, "%#z"@) {
        Some(ValidationErrorSpec::InvalidStrftime("%#z cannot be used"@))
    } else if !renders {
        Some(ValidationErrorSpec::InvalidStrftime(format))
    } else {
        None
    }
}

/// The fault of a time format, if it has one: it is empty, it holds the
/// forbidden directive `%#z`, or it does not render the sample instant.
pub open spec fn spec_format_error(format: Seq<char>) -> Option<ValidationErrorSpec> {
    spec_format_error_given(format, spec_renders_sample(format))
}

/// The fault of a part as a time format, if it has one. Only a time part
/// can have one.
pub open spec fn spec_format_fault(part: Option<PartSpec>) -> Option<ValidationErrorSpec> {
    match part {
        Some(PartSpec::TimeFormat(format)) => spec_format_error(format),
        _ => None,
    }
}

/// The fault of a name by itself, if it has one: it is empty, or it holds
/// the reserved name.
pub open spec fn spec_name_error(name: Seq<char>) -> Option<ValidationErrorSpec> {
    if name.len() == 0 {
        Some(ValidationErrorSpec::InvalidTagValue(name))
    } else if spec_text_contains(name, "time"@) {
        Some(ValidationErrorSpec::InvalidTagValue("time cannot be used"@))
    } else {
        None
    }
}

/// The fault of the name of a part by itself, if it has one. Only a tag or
/// bucket part can have one.
pub open spec fn spec_name_fault(part: Option<PartSpec>) -> Option<ValidationErrorSpec> {
    match spec_part_name(part) {
        Some(name) => spec_name_error(name),
        None => None,
    }
}

/// The fault of the part at index `index` for using the name of an earlier
/// part, if it does.
pub open spec fn spec_repeat_fault(parts: Seq<Option<PartSpec>>, index: int) -> Option<
    ValidationErrorSpec,
> {
    match spec_part_name(parts[index]) {
        Some(name) => if spec_name_used_before(parts, index, name) {
            Some(ValidationErrorSpec::RepeatedTagValue(name))
        } else {
            None
        },
        None => None,
    }
}

/// The fault of the bucket count of a part, if it has one. Only a bucket
/// part can have one.
pub open spec fn spec_count_fault(part: Option<PartSpec>) -> Option<ValidationErrorSpec> {
    match part {
        Some(PartSpec::Bucket(_, num_buckets)) => if MINIMUM_BUCKET_QUANTITY <= num_buckets
            < BUCKET_QUANTITY_LIMIT {
            None
        } else {
            Some(ValidationErrorSpec::InvalidNumberOfBuckets(num_buckets))
        },
        _ => None,
    }
}

/// The first time format fault from index `from` on, if there is one.
pub open spec fn spec_first_format_fault(parts: Seq<Option<PartSpec>>, from: int) -> Option<
    ValidationErrorSpec,
>
    decreases parts.len() - from,
{
    if from < 0 || from >= parts.len() {
        None
    } else {
        match spec_format_fault(parts[from]) {
            Some(error) => Some(error),
            None => spec_first_format_fault(parts, from + 1),
        }
    }
}

/// The first fault of a name by itself from index `from` on, if there is
/// one.
pub open spec fn spec_first_name_fault(parts: Seq<Option<PartSpec>>, from: int) -> Option<
    ValidationErrorSpec,
>
    decreases parts.len() - from,
{
    if from < 0 || from >= parts.len() {
        None
    } else {
        match spec_name_fault(parts[from]) {
            Some(error) => Some(error),
            None => spec_first_name_fault(parts, from + 1),
        }
    }
}

/// The first repeated name from index `from` on, if there is one.
pub open spec fn spec_first_repeat_fault(parts: Seq<Option<PartSpec>>, from: int) -> Option<
    ValidationErrorSpec,
>
    decreases parts.len() - from,
{
    if from < 0 || from >= parts.len() {
        None
    } else {
        match spec_repeat_fault(parts, from) {
            Some(error) => Some(error),
            None => spec_first_repeat_fault(parts, from + 1),
        }
    }
}

/// The first bucket count fault from index `from` on, if there is one.
pub open spec fn spec_first_count_fault(parts: Seq<Option<PartSpec>>, from: int) -> Option<
    ValidationErrorSpec,
>
    decreases parts.len() - from,
{
    if from < 0 || from >= parts.len() {
        None
    } else {
        match spec_count_fault(parts[from]) {
            Some(error) => Some(error),
            None => spec_first_count_fault(parts, from + 1),
        }
    }
}

/// The fault for which a template message is refused, `None` where it is
/// accepted.
///
/// The faults rank: no parts; too many parts; a faulty time format; an
/// empty or reserved name; a repeated name; a bucket count out of range.
/// The fault of the highest rank is reported, and of several of one rank
/// that of the earliest part.
pub open spec fn spec_validate(parts: Seq<Option<PartSpec>>) -> Option<ValidationErrorSpec> {
    if parts.len() == 0 {
        Some(ValidationErrorSpec::NoParts)
    } else if parts.len() > MAXIMUM_NUMBER_OF_TEMPLATE_PARTS {
        Some(ValidationErrorSpec::TooManyParts { specified: parts.len() as usize })
    } else if spec_first_format_fault(parts, 0) is Some {
        spec_first_format_fault(parts, 0)
    } else if spec_first_name_fault(parts, 0) is Some {
        spec_first_name_fault(parts, 0)
    } else if spec_first_repeat_fault(parts, 0) is Some {
        spec_first_repeat_fault(parts, 0)
    } else {
        spec_first_count_fault(parts, 0)
    }
}

/// True when the part at index `index` is as a template part must be.
pub open spec fn spec_part_valid(parts: Seq<Option<PartSpec>>, index: int) -> bool {
    &&& spec_format_fault(parts[index]) is None
    &&& spec_name_fault(parts[index]) is None
    &&& spec_repeat_fault(parts, index) is None
    &&& spec_count_fault(parts[index]) is None
}

/// True when a template message is as a template must be: one to eight
/// parts; every time format non-empty, free of `%#z` and rendering; every
/// tag or bucket name non-empty, free of the reserved name and used once
/// only; every bucket count at least 1 and below 100 000.
pub open spec fn spec_valid_parts(parts: Seq<Option<PartSpec>>) -> bool {
    1 <= parts.len() <= MAXIMUM_NUMBER_OF_TEMPLATE_PARTS && forall|i: int|
        0 <= i < parts.len() ==> spec_part_valid(parts, i)
}

/// What it means for a part to be as it must be, kind by kind.
pub proof fn lemma_part_valid(parts: Seq<Option<PartSpec>>, index: int)
    ensures
        spec_part_valid(parts, index) <==> match parts[index] {
            Some(PartSpec::TimeFormat(format)) => format.len() > 0 && !spec_text_contains(
                format,
                "%#z"@,
            ) && spec_renders_sample(format),
            Some(PartSpec::TagValue(name)) => name.len() > 0 && !spec_text_contains(
                name,
                "time"@,
            ) && !spec_name_used_before(parts, index, name),
            Some(PartSpec::Bucket(name, num_buckets)) => name.len() > 0 && !spec_text_contains(
                name,
                "time"@,
            ) && !spec_name_used_before(parts, index, name) && 1 <= num_buckets < 100_000,
            None => true,
        },
{
}

/// No part from `from` on has a fault of any kind exactly when each of
/// them is as a template part must be.
pub proof fn lemma_no_part_fault(parts: Seq<Option<PartSpec>>, from: int)
    requires
        0 <= from,
    ensures
        (spec_first_format_fault(parts, from) is None && spec_first_name_fault(parts, from)
            is None && spec_first_repeat_fault(parts, from) is None && spec_first_count_fault(
            parts,
            from,
        ) is None) <==> forall|i: int| from <= i < parts.len() ==> spec_part_valid(parts, i),
    decreases parts.len() - from,
{
    if from < parts.len() {
        lemma_no_part_fault(parts, from + 1);
        let all_valid = forall|i: int| from <= i < parts.len() ==> spec_part_valid(parts, i);
        let later_valid = forall|i: int| from + 1 <= i < parts.len() ==> spec_part_valid(parts, i);
        if all_valid {
            assert(spec_part_valid(parts, from));
            assert(later_valid);
        }
        if spec_part_valid(parts, from) && later_valid {
            assert forall|i: int| from <= i < parts.len() implies spec_part_valid(parts, i) by {
                if i > from {
                }
            }
        }
    }
}

/// Validation accepts exactly the templates that are as a template must
/// be.
pub proof fn lemma_validate_accepts_valid(parts: Seq<Option<PartSpec>>)
    ensures
        spec_validate(parts) is None <==> spec_valid_parts(parts),
{
    lemma_no_part_fault(parts, 0);
}

/// Tells whether a time format is empty or holds the forbidden directive
/// `%#z`, so that it is refused before it is ever rendered.
pub fn format_is_refused_unrendered(format: &str) -> (refused: bool)
    ensures
        refused == (format@.len() == 0 || spec_text_contains(format@, "%#z"@)),
{
    format.is_empty() || contains_bytes(format.as_bytes(), "%#z".as_bytes())
}

/// The fault of a time format, given whether it renders a sample instant.
pub fn format_error(format: &str, renders: bool) -> (result: Result<(), ValidationError>)
    ensures
        match result {
            Ok(_) => spec_format_error_given(format@, renders) is None,
            Err(error) => spec_format_error_given(format@, renders) == Some(error@),
        },
{
    if format.is_empty() {
        return Err(ValidationError::InvalidStrftime(format.to_owned()));
    }
    if contains_bytes(format.as_bytes(), "%#z".as_bytes()) {
        return Err(ValidationError::InvalidStrftime("%#z cannot be used".to_owned()));
    }
    if !renders {
        return Err(ValidationError::InvalidStrftime(format.to_owned()));
    }
    Ok(())
}

/// Checks a time format. Only a format that is neither empty nor holds
/// `%#z` is rendered to see whether it renders.
pub fn check_format(format: &str) -> (result: Result<(), ValidationError>)
    ensures
        match result {
            Ok(_) => spec_format_error(format@) is None,
            Err(error) => spec_format_error(format@) == Some(error@),
        },
{
    let renders = if format_is_refused_unrendered(format) {
        false
    } else {
        renders_sample(format)
    };
    format_error(format, renders)
}

/// Checks a name by itself: it must not be empty nor hold the reserved
/// name.
pub fn check_name(name: &str) -> (result: Result<(), ValidationError>)
    ensures
        match result {
            Ok(_) => spec_name_error(name@) is None,
            Err(error) => spec_name_error(name@) == Some(error@),
        },
{
    if name.is_empty() {
        return Err(ValidationError::InvalidTagValue(name.to_owned()));
    }
    if contains_bytes(name.as_bytes(), "time".as_bytes()) {
        return Err(ValidationError::InvalidTagValue("time cannot be used".to_owned()));
    }
    Ok(())
}

/// The name of a tag or bucket part; a time part and an unset part have
/// none.
pub fn part_name(part: &TemplatePart) -> (name: Option<&str>)
    ensures
        name is Some <==> spec_part_name(part.spec_part()) is Some,
        name matches Some(text) ==> spec_part_name(part.spec_part()) == Some(text@),
{
    match &part.part {
        Some(Part::TagValue(value)) => Some(value.as_str()),
        Some(Part::Bucket(bucket)) => Some(bucket.tag_name.as_str()),
        _ => None,
    }
}

/// Tells whether one of the parts before index `index` has the name
/// `name`.
pub fn name_used_before(partition_template: &PartitionTemplate, index: usize, name: &str) -> (used:
    bool)
    requires
        index <= partition_template.parts@.len(),
    ensures
        used == spec_name_used_before(partition_template@, index as int, name@),
{
    let ghost parts = partition_template@;
    let mut j: usize = 0;
    while j < index
        invariant
            j <= index <= partition_template.parts@.len(),
            parts == partition_template@,
            forall|k: int| 0 <= k < j ==> spec_part_name(#[trigger] parts[k]) != Some(name@),
        decreases index - j,
    {
        assert(parts[j as int] == partition_template.parts@[j as int].spec_part());
        match part_name(&partition_template.parts[j]) {
            Some(earlier) => {
                if bytes_eq(earlier.as_bytes(), name.as_bytes()) {
                    proof {
                        lemma_same_bytes_same_text(earlier@, name@);
                    }
                    return true;
                }
            },
            None => {},
        }
        j = j + 1;
    }
    false
}

/// A template message that is shared once it has been accepted.
#[derive(Debug, Clone, PartialEq, Eq, Hash)]
pub struct Wrapper(Arc<PartitionTemplate>);

impl Wrapper {
    /// The template message inside.
    pub closed spec fn spec_inner(&self) -> PartitionTemplate {
        *self.0
    }

    /// Read access to the template message.
    pub fn inner(&self) -> (message: &PartitionTemplate)
        ensures
            *message == self.spec_inner(),
    {
        &self.0
    }

    /// Another handle on the same message.
    pub fn share(&self) -> (shared: Wrapper)
        ensures
            shared.spec_inner() == self.spec_inner(),
    {
        Wrapper(Arc::clone(&self.0))
    }

    /// Wraps a message that comes out of a store. What is stored was
    /// validated when it was written, so it is not validated again.
    pub fn from_stored(proto: PartitionTemplate) -> (wrapper: Self)
        ensures
            wrapper.spec_inner() == proto,
    {
        Self(Arc::new(proto))
    }

    /// Wraps a message without validating it.
    ///
    /// For trying out code on templates that validation would refuse, as a
    /// store might hold them; not for building templates otherwise.
    pub fn for_testing_possibility_of_invalid_value_in_database(proto: PartitionTemplate) -> (wrapper:
        Self)
        ensures
            wrapper.spec_inner() == proto,
    {
        Self(Arc::new(proto))
    }

    /// Validates a template message and wraps it.
    pub fn try_from(partition_template: PartitionTemplate) -> (result: Result<Self, ValidationError>)
        ensures
            match result {
                Ok(wrapper) => spec_validate(partition_template@) is None && wrapper.spec_inner()
                    == partition_template,
                Err(error) => spec_validate(partition_template@) == Some(error@),
            },
    {
        match validate(&partition_template) {
            Ok(_) => Ok(Self(Arc::new(partition_template))),
            Err(error) => Err(error),
        }
    }
}

/// Validates a template message.
pub fn validate(partition_template: &PartitionTemplate) -> (result: Result<(), ValidationError>)
    ensures
        match result {
            Ok(_) => spec_validate(partition_template@) is None,
            Err(error) => spec_validate(partition_template@) == Some(error@),
        },
{
    let specified = partition_template.parts.len();
    if specified == 0 {
        return Err(ValidationError::NoParts);
    }
    if specified > MAXIMUM_NUMBER_OF_TEMPLATE_PARTS {
        return Err(ValidationError::TooManyParts { specified });
    }
    let ghost parts = partition_template@;

    let mut i: usize = 0;
    while i < specified
        invariant
            i <= specified == partition_template.parts@.len(),
            parts == partition_template@,
            parts.len() == specified,
            0 < specified <= MAXIMUM_NUMBER_OF_TEMPLATE_PARTS,
            spec_first_format_fault(parts, 0) == spec_first_format_fault(parts, i as int),
        decreases specified - i,
    {
        assert(parts[i as int] == partition_template.parts@[i as int].spec_part());
        match &partition_template.parts[i].part {
            Some(Part::TimeFormat(format)) => match check_format(format.as_str()) {
                Ok(_) => {},
                Err(error) => {
                    return Err(error);
                },
            },
            _ => {},
        }
        i = i + 1;
    }

    let mut i: usize = 0;
    while i < specified
        invariant
            i <= specified == partition_template.parts@.len(),
            parts == partition_template@,
            parts.len() == specified,
            0 < specified <= MAXIMUM_NUMBER_OF_TEMPLATE_PARTS,
            spec_first_format_fault(parts, 0) is None,
            spec_first_name_fault(parts, 0) == spec_first_name_fault(parts, i as int),
        decreases specified - i,
    {
        assert(parts[i as int] == partition_template.parts@[i as int].spec_part());
        match part_name(&partition_template.parts[i]) {
            Some(name) => match check_name(name) {
                Ok(_) => {},
                Err(error) => {
                    return Err(error);
                },
            },
            None => {},
        }
        i = i + 1;
    }

    let mut i: usize = 0;
    while i < specified
        invariant
            i <= specified == partition_template.parts@.len(),
            parts == partition_template@,
            parts.len() == specified,
            0 < specified <= MAXIMUM_NUMBER_OF_TEMPLATE_PARTS,
            spec_first_format_fault(parts, 0) is None,
            spec_first_name_fault(parts, 0) is None,
            spec_first_repeat_fault(parts, 0) == spec_first_repeat_fault(parts, i as int),
        decreases specified - i,
    {
        assert(parts[i as int] == partition_template.parts@[i as int].spec_part());
        match part_name(&partition_template.parts[i]) {
            Some(name) => {
                if name_used_before(partition_template, i, name) {
                    return Err(ValidationError::RepeatedTagValue(name.to_owned()));
                }
            },
            None => {},
        }
        i = i + 1;
    }

    let mut i: usize = 0;
    while i < specified
        invariant
            i <= specified == partition_template.parts@.len(),
            parts == partition_template@,
            parts.len() == specified,
            0 < specified <= MAXIMUM_NUMBER_OF_TEMPLATE_PARTS,
            spec_first_format_fault(parts, 0) is None,
            spec_first_name_fault(parts, 0) is None,
            spec_first_repeat_fault(parts, 0) is None,
            spec_first_count_fault(parts, 0) == spec_first_count_fault(parts, i as int),
        decreases specified - i,
    {
        assert(parts[i as int] == partition_template.parts@[i as int].spec_part());
        match &partition_template.parts[i].part {
            Some(Part::Bucket(bucket)) => {
                if bucket.num_buckets < MINIMUM_BUCKET_QUANTITY || bucket.num_buckets
                    >= BUCKET_QUANTITY_LIMIT {
                    return Err(ValidationError::InvalidNumberOfBuckets(bucket.num_buckets));
                }
            },
            _ => {},
        }
        i = i + 1;
    }
    Ok(())
}

} // verus!
