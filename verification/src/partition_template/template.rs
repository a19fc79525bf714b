//! Validated partition templates and their namespace and table overrides.
//!
//! A table's template is its own override where it has one, else the
//! override of its namespace, else the default: one part, the day of the row
//! timestamp as `%Y-%m-%d`.

use vstd::prelude::*;

use crate::partition_template::validation::spec_validate;
use crate::partition_template::validation::ValidationError;
use crate::partition_template::validation::Wrapper;
use crate::proto::PartitionTemplate;
use crate::proto::PartSpec;
use crate::proto::template_part::Part;

verus! {

/// One part of a template, lent out without the message around it.
#[derive(Debug, Clone)]
pub enum TemplatePart<'a> {
    /// The value of the named tag column.
    TagValue(&'a str),
    /// The row timestamp rendered through this strftime format.
    TimeFormat(&'a str),
    /// The bucket that the named tag column's value hashes to, out of this
    /// many buckets.
    Bucket(&'a str, u32),
}

impl<'a> View for TemplatePart<'a> {
    type V = PartSpec;

    open spec fn view(&self) -> PartSpec {
        match *self {
            TemplatePart::TagValue(name) => PartSpec::TagValue(name@),
            TemplatePart::TimeFormat(format) => PartSpec::TimeFormat(format@),
            TemplatePart::Bucket(name, num_buckets) => PartSpec::Bucket(name@, num_buckets),
        }
    }
}

/// The view of every part of a sequence.
pub open spec fn spec_part_views(parts: Seq<TemplatePart<'_>>) -> Seq<PartSpec> {
    Seq::new(parts.len(), |i: int| parts[i]@)
}

/// The parts of a message that are set, in order.
pub open spec fn spec_set_parts(parts: Seq<Option<PartSpec>>) -> Seq<PartSpec>
    decreases parts.len(),
{
    if parts.len() == 0 {
        Seq::empty()
    } else {
        match parts.last() {
            Some(part) => spec_set_parts(parts.drop_last()).push(part),
            None => spec_set_parts(parts.drop_last()),
        }
    }
}

/// The parts of the default template: the day of the row timestamp.
pub open spec fn spec_default_parts() -> Seq<PartSpec> {
    seq![PartSpec::TimeFormat("%Y-%m-%d"@)]
}

/// The parts that an optional template message resolves to.
pub open spec fn spec_resolved_parts(template: Option<PartitionTemplate>) -> Seq<PartSpec> {
    match template {
        Some(message) => spec_set_parts(message@),
        None => spec_default_parts(),
    }
}

/// The partition template that a namespace record specifies, if any.
#[derive(Debug, Clone, PartialEq, Eq, Hash)]
pub struct NamespacePartitionTemplateOverride(Option<Wrapper>);

impl NamespacePartitionTemplateOverride {
    /// The template message of the override, `None` where the namespace has
    /// none.
    pub closed spec fn spec_proto(&self) -> Option<PartitionTemplate> {
        match self.0 {
            Some(wrapper) => Some(wrapper.spec_inner()),
            None => None,
        }
    }

    /// A namespace without an override.
    pub fn const_default() -> (template: Self)
        ensures
            template.spec_proto() is None,
    {
        Self(None)
    }

    /// The override that a store holds for a namespace.
    pub fn from_stored(stored: Option<Wrapper>) -> (template: Self)
        ensures
            template.spec_proto() == match stored {
                Some(wrapper) => Some(wrapper.spec_inner()),
                None => None,
            },
    {
        Self(stored)
    }

    /// The template message of the override, if there is one.
    pub fn as_proto(&self) -> (message: Option<&PartitionTemplate>)
        ensures
            message is Some <==> self.spec_proto() is Some,
            message matches Some(m) ==> *m == self.spec_proto()->0,
    {
        match &self.0 {
            Some(wrapper) => Some(wrapper.inner()),
            None => None,
        }
    }

    /// Validates a template message and makes it a namespace override.
    pub fn try_from(partition_template: PartitionTemplate) -> (result: Result<
        Self,
        ValidationError,
    >)
        ensures
            match result {
                Ok(template) => spec_validate(partition_template@) is None
                    && template.spec_proto() == Some(partition_template),
                Err(error) => spec_validate(partition_template@) == Some(error@),
            },
    {
        match Wrapper::try_from(partition_template) {
            Ok(wrapper) => Ok(Self(Some(wrapper))),
            Err(error) => Err(error),
        }
    }
}

impl Default for NamespacePartitionTemplateOverride {
    fn default() -> (template: Self)
        ensures
            template.spec_proto() is None,
    {
        Self(None)
    }
}

/// The partition template of a table: its own override or the one of its
/// namespace, if either exists.
#[derive(Debug, Clone, PartialEq, Eq, Hash)]
pub struct TablePartitionTemplateOverride(Option<Wrapper>);

impl Default for TablePartitionTemplateOverride {
    fn default() -> (template: Self)
        ensures
            template.spec_proto() is None,
    {
        Self(None)
    }
}

impl TablePartitionTemplateOverride {
    /// The template message in force, `None` where the default applies.
    pub closed spec fn spec_proto(&self) -> Option<PartitionTemplate> {
        match self.0 {
            Some(wrapper) => Some(wrapper.spec_inner()),
            None => None,
        }
    }

    /// The parts of the template in force.
    pub open spec fn spec_parts(&self) -> Seq<PartSpec> {
        spec_resolved_parts(self.spec_proto())
    }

    /// Resolves the template of a table that is being created.
    ///
    /// A custom template is validated and used; without one the namespace's
    /// template is taken over; without either the default applies.
    pub fn try_new(
        custom_table_template: Option<PartitionTemplate>,
        namespace_template: &NamespacePartitionTemplateOverride,
    ) -> (result: Result<Self, ValidationError>)
        ensures
            match custom_table_template {
                Some(custom) => match result {
                    Ok(template) => spec_validate(custom@) is None && template.spec_proto()
                        == Some(custom),
                    Err(error) => spec_validate(custom@) == Some(error@),
                },
                None => result matches Ok(template) && template.spec_proto()
                    == namespace_template.spec_proto(),
            },
    {
        match custom_table_template {
            Some(table_proto) => match Wrapper::try_from(table_proto) {
                Ok(wrapper) => Ok(Self(Some(wrapper))),
                Err(error) => Err(error),
            },
            None => match &namespace_template.0 {
                Some(wrapper) => Ok(Self(Some(wrapper.share()))),
                None => Ok(Self(None)),
            },
        }
    }

    /// Validates an optional template message and makes it a table override.
    pub fn try_from(template: Option<PartitionTemplate>) -> (result: Result<Self, ValidationError>)
        ensures
            match template {
                Some(custom) => match result {
                    Ok(made) => spec_validate(custom@) is None && made.spec_proto() == Some(
                        custom,
                    ),
                    Err(error) => spec_validate(custom@) == Some(error@),
                },
                None => result matches Ok(made) && made.spec_proto() is None,
            },
    {
        match template {
            Some(table_proto) => match Wrapper::try_from(table_proto) {
                Ok(wrapper) => Ok(Self(Some(wrapper))),
                Err(error) => Err(error),
            },
            None => Ok(Self(None)),
        }
    }

    /// The override that a store holds for a table.
    pub fn from_stored(stored: Option<Wrapper>) -> (template: Self)
        ensures
            template.spec_proto() == match stored {
                Some(wrapper) => Some(wrapper.spec_inner()),
                None => None,
            },
    {
        Self(stored)
    }

    /// The template message in force, `None` where the default applies.
    pub fn as_proto(&self) -> (message: Option<&PartitionTemplate>)
        ensures
            message is Some <==> self.spec_proto() is Some,
            message matches Some(m) ==> *m == self.spec_proto()->0,
    {
        match &self.0 {
            Some(wrapper) => Some(wrapper.inner()),
            None => None,
        }
    }

    /// The parts of the template in force, in key order. Parts that the
    /// message left unset are passed over; without a message the default
    /// template is handed out.
    pub fn parts(&self) -> (parts: Vec<TemplatePart<'_>>)
        ensures
            spec_part_views(parts@) == self.spec_parts(),
    {
        let mut out: Vec<TemplatePart<'_>> = Vec::new();
        match &self.0 {
            None => {
                out.push(TemplatePart::TimeFormat("%Y-%m-%d"));
                assert(spec_part_views(out@) =~= spec_default_parts());
            },
            Some(wrapper) => {
                let message = wrapper.inner();
                let mut i: usize = 0;
                assert(message@.take(0) =~= Seq::<Option<PartSpec>>::empty());
                assert(spec_part_views(out@) =~= spec_set_parts(message@.take(0)));
                while i < message.parts.len()
                    invariant
                        i <= message.parts@.len(),
                        message@.len() == message.parts@.len(),
                        spec_part_views(out@) == spec_set_parts(message@.take(i as int)),
                    decreases message.parts@.len() - i,
                {
                    let ghost before = spec_part_views(out@);
                    proof {
                        assert(message@.take(i + 1).drop_last() =~= message@.take(i as int));
                        assert(message@.take(i + 1).last() == message.parts@[i as int].spec_part());
                    }
                    match &message.parts[i].part {
                        Some(Part::TagValue(value)) => {
                            out.push(TemplatePart::TagValue(value.as_str()));
                            assert(spec_part_views(out@) =~= before.push(
                                PartSpec::TagValue(value@),
                            ));
                        },
                        Some(Part::TimeFormat(format)) => {
                            out.push(TemplatePart::TimeFormat(format.as_str()));
                            assert(spec_part_views(out@) =~= before.push(
                                PartSpec::TimeFormat(format@),
                            ));
                        },
                        Some(Part::Bucket(bucket)) => {
                            out.push(
                                TemplatePart::Bucket(bucket.tag_name.as_str(), bucket.num_buckets),
                            );
                            assert(spec_part_views(out@) =~= before.push(
                                PartSpec::Bucket(bucket.tag_name@, bucket.num_buckets),
                            ));
                        },
                        None => {
                            assert(spec_part_views(out@) =~= before);
                        },
                    }
                    i = i + 1;
                }
                assert(message@.take(i as int) =~= message@);
            },
        }
        out
    }

    /// The number of parts of the template in force.
    pub fn len(&self) -> (count: usize)
        ensures
            count == self.spec_parts().len(),
    {
        let parts = self.parts();
        assert(spec_part_views(parts@).len() == parts@.len());
        parts.len()
    }
}

/// Builds a table template from parts without validating it, so that code
/// which reads stored templates can be tried on templates that validation
/// would have refused.
pub fn test_table_partition_override(parts: Vec<TemplatePart<'_>>) -> (template:
    TablePartitionTemplateOverride)
    ensures
        template.spec_parts() == spec_part_views(parts@),
{
    let mut message_parts: Vec<crate::proto::TemplatePart> = Vec::new();
    let mut i: usize = 0;
    while i < parts.len()
        invariant
            i <= parts@.len(),
            message_parts@.len() == i,
            forall|j: int|
                0 <= j < i ==> (#[trigger] message_parts@[j]).spec_part() == Some(parts@[j]@),
        decreases parts@.len() - i,
    {
        let part = match &parts[i] {
            TemplatePart::TagValue(value) => Part::TagValue((*value).to_owned()),
            TemplatePart::TimeFormat(format) => Part::TimeFormat((*format).to_owned()),
            TemplatePart::Bucket(value, num_buckets) => Part::Bucket(
                crate::proto::Bucket { tag_name: (*value).to_owned(), num_buckets: *num_buckets },
            ),
        };
        message_parts.push(crate::proto::TemplatePart { part: Some(part) });
        i = i + 1;
    }
    let message = PartitionTemplate { parts: message_parts };
    proof {
        lemma_set_parts_all_set(message@, spec_part_views(parts@));
    }
    TablePartitionTemplateOverride(
        Some(Wrapper::for_testing_possibility_of_invalid_value_in_database(message)),
    )
}

/// Where every part of a message is set, its set parts are all its parts.
pub proof fn lemma_set_parts_all_set(message: Seq<Option<PartSpec>>, parts: Seq<PartSpec>)
    requires
        message.len() == parts.len(),
        forall|j: int| 0 <= j < parts.len() ==> message[j] == Some(parts[j]),
    ensures
        spec_set_parts(message) == parts,
    decreases message.len(),
{
    if message.len() == 0 {
        assert(parts =~= Seq::<PartSpec>::empty());
    } else {
        lemma_set_parts_all_set(message.drop_last(), parts.drop_last());
        assert(parts =~= parts.drop_last().push(parts.last()));
    }
}

} // verus!
