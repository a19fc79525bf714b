//! Reading the column values back out of a partition key.

use vstd::prelude::*;
use vstd::string::StringSliceAdditionalSpecFns;
use vstd::utf8::*;

use crate::bytes::spec_starts_with;
use crate::bytes::starts_with_bytes;
use crate::bytes::string_from_utf8;
use crate::partition_template::decimal::parse_u32;
use crate::partition_template::decimal::spec_parse_u32;
use crate::partition_template::percent::percent_decode;
use crate::partition_template::percent::spec_percent_decode;
use crate::partition_template::split::spec_bytes_of;
use crate::partition_template::split::spec_split;
use crate::partition_template::split::split_key;
use crate::partition_template::template::spec_part_views;
use crate::partition_template::template::TablePartitionTemplateOverride;
use crate::partition_template::template::TemplatePart;
use crate::partition_template::time_range::spec_time_range;
use crate::partition_template::time_range::time_range;
use crate::partition_template::time_range::Timestamp;
use crate::proto::PartSpec;

verus! {

/// The character that separates the parts of a key.
pub const PARTITION_KEY_DELIMITER: char = '|';

/// The character that stands for an empty string.
pub const PARTITION_KEY_VALUE_EMPTY: char = '^';

/// The key part that stands for an empty string.
pub const PARTITION_KEY_VALUE_EMPTY_STR: &'static str = "^";

/// The character that stands for a missing value.
pub const PARTITION_KEY_VALUE_NULL: char = '!';

/// The key part that stands for a missing value.
pub const PARTITION_KEY_VALUE_NULL_STR: &'static str = "!";

/// The character that ends a value that was cut short.
pub const PARTITION_KEY_PART_TRUNCATED: char = '#';

/// The byte that separates the parts of a key, `|`.
pub const DELIMITER_BYTE: u8 = 0x7C;

/// The byte that stands for a missing value, `!`.
pub const NULL_BYTE: u8 = 0x21;

/// The byte that stands for an empty value, `^`.
pub const EMPTY_BYTE: u8 = 0x5E;

/// The byte that ends a truncated value, `#`.
pub const TRUNCATED_BYTE: u8 = 0x23;

/// The name of the timestamp column.
pub const TIME_COLUMN_NAME: &'static str = "time";

/// The value of a column, read back from a partition key.
#[derive(Debug, Clone, PartialEq)]
pub enum ColumnValue {
    /// The exact value of the column.
    Identity(String),
    /// A prefix of the value of the column, which was cut short in the key.
    /// It compares unequal to every string; match it as a prefix.
    Prefix(String),
    /// The range of timestamps that the key stands for.
    Datetime {
        /// The first instant of the range.
        begin: Timestamp,
        /// The first instant behind the range.
        end: Timestamp,
    },
    /// The bucket that the value of the column hashes to.
    Bucket {
        /// The bucket id.
        id: u32,
        /// The number of buckets the template asks for.
        num_buckets: u32,
    },
}

/// A column value with its text as a character sequence.
pub enum ColumnValueSpec {
    /// The exact value.
    Identity(Seq<char>),
    /// A prefix of the value.
    Prefix(Seq<char>),
    /// A range of timestamps.
    Datetime { begin: Timestamp, end: Timestamp },
    /// A bucket id and the number of buckets.
    Bucket { id: u32, num_buckets: u32 },
}

impl View for ColumnValue {
    type V = ColumnValueSpec;

    open spec fn view(&self) -> ColumnValueSpec {
        match *self {
            ColumnValue::Identity(text) => ColumnValueSpec::Identity(text@),
            ColumnValue::Prefix(text) => ColumnValueSpec::Prefix(text@),
            ColumnValue::Datetime { begin, end } => ColumnValueSpec::Datetime { begin, end },
            ColumnValue::Bucket { id, num_buckets } => ColumnValueSpec::Bucket { id, num_buckets },
        }
    }
}

impl ColumnValueSpec {
    /// True when the value is text whose UTF-8 bytes `other` begins with.
    pub open spec fn spec_is_prefix_match_of(self, other: Seq<u8>) -> bool {
        match self {
            ColumnValueSpec::Identity(text) => spec_starts_with(other, encode_utf8(text)),
            ColumnValueSpec::Prefix(text) => spec_starts_with(other, encode_utf8(text)),
            _ => false,
        }
    }

    /// True when the value is exactly the text `other`. A prefix, a range
    /// and a bucket equal no text.
    pub open spec fn spec_eq_str(self, other: Seq<char>) -> bool {
        self == ColumnValueSpec::Identity(other)
    }
}

impl ColumnValue {
    /// Tells whether `other` begins, byte for byte, with this value. Only an
    /// exact value and a prefix can match.
    pub fn is_prefix_match_of(&self, other: &[u8]) -> (matches: bool)
        ensures
            matches == self@.spec_is_prefix_match_of(other@),
    {
        match self {
            ColumnValue::Identity(text) => starts_with_bytes(other, text.as_str().as_bytes()),
            ColumnValue::Prefix(text) => starts_with_bytes(other, text.as_str().as_bytes()),
            _ => false,
        }
    }

    /// Tells whether this value is exactly the text `other`. A prefix, a
    /// range and a bucket equal no text.
    pub fn eq_str(&self, other: &str) -> (equal: bool)
        ensures
            equal == self@.spec_eq_str(other@),
    {
        match self {
            ColumnValue::Identity(text) => {
                let same = crate::bytes::bytes_eq(
                    other.as_bytes(),
                    text.as_str().as_bytes(),
                );
                proof {
                    if same {
                        crate::bytes::lemma_same_bytes_same_text(
                            other@,
                            text@,
                        );
                    }
                }
                same
            },
            _ => false,
        }
    }
}

/// True when a key part is the marker for a missing value.
pub open spec fn spec_is_null(value: Seq<u8>) -> bool {
    value == seq![NULL_BYTE]
}

/// True when a tag key part ends in the truncation marker. The marker for
/// the empty string is no value and so never truncated.
pub open spec fn spec_is_truncated(value: Seq<u8>) -> bool {
    value != seq![EMPTY_BYTE] && value.len() > 0 && value.last() == TRUNCATED_BYTE
}

/// The UTF-8 bytes of the column value that a tag key part stands for: none
/// for the empty marker, else the percent-decoded part, without the
/// truncation marker where it ends in one.
pub open spec fn spec_tag_value_bytes(value: Seq<u8>) -> Seq<u8> {
    if value == seq![EMPTY_BYTE] {
        Seq::empty()
    } else if spec_is_truncated(value) {
        spec_percent_decode(value).drop_last()
    } else {
        spec_percent_decode(value)
    }
}

/// The column value that a tag key part stands for.
pub open spec fn spec_tag_value(value: Seq<u8>) -> ColumnValueSpec {
    if spec_is_truncated(value) {
        ColumnValueSpec::Prefix(decode_utf8(spec_tag_value_bytes(value)))
    } else {
        ColumnValueSpec::Identity(decode_utf8(spec_tag_value_bytes(value)))
    }
}

/// True when a key part can be read under a template part: a tag value must
/// decode to valid UTF-8, a bucket id must be a decimal `u32` below the
/// number of buckets. The marker for a missing value can always be read,
/// and so can any part under a time format.
pub open spec fn spec_part_decodable(part: PartSpec, value: Seq<u8>) -> bool {
    spec_is_null(value) || match part {
        PartSpec::TagValue(_) => valid_utf8(spec_tag_value_bytes(value)),
        PartSpec::TimeFormat(_) => true,
        PartSpec::Bucket(_, num_buckets) => spec_parse_u32(value) matches Some(id) && id
            < num_buckets,
    }
}

/// True when every part of a key that has a template part can be read under
/// it.
pub open spec fn spec_key_decodable(parts: Seq<PartSpec>, values: Seq<Seq<u8>>) -> bool {
    forall|i: int|
        0 <= i < parts.len() && i < values.len() ==> spec_part_decodable(
            #[trigger] parts[i],
            values[i],
        )
}

/// The column that a key part yields under a template part, `None` where it
/// yields none: for the marker of a missing value, and for a time part that
/// gives no range.
pub open spec fn spec_column(part: PartSpec, value: Seq<u8>) -> Option<
    (Seq<char>, ColumnValueSpec),
> {
    if spec_is_null(value) {
        None
    } else {
        match part {
            PartSpec::TagValue(name) => Some((name, spec_tag_value(value))),
            PartSpec::TimeFormat(format) => match spec_time_range(decode_utf8(value), format) {
                Some((begin, end)) => Some(
                    (TIME_COLUMN_NAME@, ColumnValueSpec::Datetime { begin, end }),
                ),
                None => None,
            },
            PartSpec::Bucket(name, num_buckets) => Some(
                (name, ColumnValueSpec::Bucket { id: spec_parse_u32(value)->0, num_buckets }),
            ),
        }
    }
}

/// The columns that the first `count` pairs of template part and key part
/// yield, in order.
pub open spec fn spec_columns_upto(parts: Seq<PartSpec>, values: Seq<Seq<u8>>, count: int) -> Seq<
    (Seq<char>, ColumnValueSpec),
>
    decreases count,
{
    if count <= 0 {
        Seq::empty()
    } else {
        match spec_column(parts[count - 1], values[count - 1]) {
            Some(column) => spec_columns_upto(parts, values, count - 1).push(column),
            None => spec_columns_upto(parts, values, count - 1),
        }
    }
}

/// The columns that a key yields under the parts of a template. Template
/// parts and key parts are paired in order; what is left over on either side
/// is passed over.
pub open spec fn spec_column_values(parts: Seq<PartSpec>, key: Seq<u8>) -> Seq<
    (Seq<char>, ColumnValueSpec),
> {
    let values = spec_split(key, DELIMITER_BYTE);
    spec_columns_upto(
        parts,
        values,
        if parts.len() <= values.len() {
            parts.len() as int
        } else {
            values.len() as int
        },
    )
}

/// The views of a list of named column values.
pub open spec fn spec_column_views(columns: Seq<(&str, ColumnValue)>) -> Seq<
    (Seq<char>, ColumnValueSpec),
> {
    Seq::new(columns.len(), |i: int| (columns[i].0@, columns[i].1@))
}

/// Percent-decoding a part that is not empty gives at least one byte.
proof fn lemma_decode_nonempty(value: Seq<u8>)
    requires
        value.len() > 0,
    ensures
        spec_percent_decode(value).len() > 0,
{
}

/// Reads the column value of a tag key part.
///
/// `^` stands for the empty string. A part that ends in `#` was cut short
/// and gives a prefix; any other part gives the exact value.
pub fn parse_part_tag_value(value: &str) -> (column: Option<ColumnValue>)
    requires
        valid_utf8(spec_tag_value_bytes(value.spec_bytes())),
    ensures
        column matches Some(found) && found@ == spec_tag_value(value.spec_bytes()),
{
    let raw = value.as_bytes();
    let is_empty_marker = raw.len() == 1 && raw[0] == EMPTY_BYTE;
    assert(is_empty_marker <==> raw@ == seq![EMPTY_BYTE]) by {
        if is_empty_marker {
            assert(raw@ =~= seq![EMPTY_BYTE]);
        }
    }
    if is_empty_marker {
        let text = String::new();
        proof {
            assert(spec_tag_value_bytes(raw@) =~= Seq::<u8>::empty());
            assert(text@ =~= decode_utf8(Seq::<u8>::empty()));
        }
        return Some(ColumnValue::Identity(text));
    }
    let mut decoded = percent_decode(raw);
    let truncated = raw.len() > 0 && raw[raw.len() - 1] == TRUNCATED_BYTE;
    if truncated {
        proof {
            lemma_decode_nonempty(raw@);
        }
        decoded.pop();
    }
    assert(decoded@ == spec_tag_value_bytes(raw@));
    let text = match string_from_utf8(decoded) {
        Some(text) => text,
        None => {
            return None;
        },
    };
    proof {
        encode_utf8_decode_utf8(text@);
    }
    if truncated {
        Some(ColumnValue::Prefix(text))
    } else {
        Some(ColumnValue::Identity(text))
    }
}

/// Reads the datetime range of a time key part. A part that does not parse
/// under the format, or a format that gives no range, yields nothing.
pub fn parse_part_time_format(value: &str, format: &str) -> (column: Option<ColumnValue>)
    ensures
        match spec_time_range(value@, format@) {
            Some((begin, end)) => column matches Some(found) && found@
                == (ColumnValueSpec::Datetime { begin, end }),
            None => column is None,
        },
{
    match time_range(value, format) {
        Some((begin, end)) => Some(ColumnValue::Datetime { begin, end }),
        None => None,
    }
}

/// Reads the bucket id of a bucket key part.
pub fn parse_part_bucket(value: &str, num_buckets: u32) -> (column: Option<ColumnValue>)
    requires
        spec_parse_u32(value.spec_bytes()) matches Some(id) && id < num_buckets,
    ensures
        column matches Some(found) && found@ == (ColumnValueSpec::Bucket {
            id: spec_parse_u32(value.spec_bytes())->0,
            num_buckets,
        }),
{
    match parse_u32(value.as_bytes()) {
        Some(id) => Some(ColumnValue::Bucket { id, num_buckets }),
        None => None,
    }
}

/// Tells whether a key part is the marker for a missing value.
fn is_null(value: &str) -> (null: bool)
    ensures
        null == spec_is_null(value.spec_bytes()),
{
    let raw = value.as_bytes();
    let null = raw.len() == 1 && raw[0] == NULL_BYTE;
    proof {
        if null {
            assert(raw@ =~= seq![NULL_BYTE]);
        }
    }
    null
}

/// Tells whether a key part can be read under a template part.
pub fn part_is_decodable(part: &TemplatePart<'_>, value: &str) -> (decodable: bool)
    ensures
        decodable == spec_part_decodable(part@, value.spec_bytes()),
{
    if is_null(value) {
        return true;
    }
    match part {
        TemplatePart::TagValue(_) => {
            let raw = value.as_bytes();
            if raw.len() == 1 && raw[0] == EMPTY_BYTE {
                proof {
                    assert(raw@ =~= seq![EMPTY_BYTE]);
                    assert(valid_utf8(Seq::<u8>::empty()));
                }
                return true;
            }
            let mut decoded = percent_decode(raw);
            if raw.len() > 0 && raw[raw.len() - 1] == TRUNCATED_BYTE {
                proof {
                    lemma_decode_nonempty(raw@);
                }
                decoded.pop();
            }
            assert(decoded@ == spec_tag_value_bytes(raw@));
            string_from_utf8(decoded).is_some()
        },
        TemplatePart::TimeFormat(_) => true,
        TemplatePart::Bucket(_, num_buckets) => match parse_u32(value.as_bytes()) {
            Some(id) => id < *num_buckets,
            None => false,
        },
    }
}

/// Tells whether [`build_column_values`] can read `partition_key` under
/// `template`: whether every tag value in it decodes to valid UTF-8 and
/// every bucket id is a decimal `u32` below its number of buckets.
pub fn key_is_decodable(template: &TablePartitionTemplateOverride, partition_key: &str) -> (decodable:
    bool)
    ensures
        decodable == spec_key_decodable(
            template.spec_parts(),
            spec_split(partition_key.spec_bytes(), DELIMITER_BYTE),
        ),
{
    let parts = template.parts();
    let values = split_key(partition_key);
    let ghost part_specs = template.spec_parts();
    let ghost value_specs = spec_split(partition_key.spec_bytes(), DELIMITER_BYTE);
    let mut i: usize = 0;
    while i < parts.len() && i < values.len()
        invariant
            part_specs == spec_part_views(parts@),
            part_specs == template.spec_parts(),
            value_specs == spec_bytes_of(values@),
            value_specs == spec_split(partition_key.spec_bytes(), DELIMITER_BYTE),
            forall|j: int| 0 <= j < i ==> spec_part_decodable(#[trigger] part_specs[j], value_specs[j]),
        decreases parts@.len() - i,
    {
        if !part_is_decodable(&parts[i], values[i]) {
            assert(!spec_part_decodable(part_specs[i as int], value_specs[i as int]));
            return false;
        }
        i = i + 1;
    }
    true
}

/// Reads the column that one key part holds under its template part:
/// nothing for the marker of a missing value and for a time part that gives
/// no range, else the name of the column and its value.
///
/// The part must be readable, which [`part_is_decodable`] tests.
pub fn build_column<'a>(part: &TemplatePart<'a>, value: &'a str) -> (column: Option<
    (&'a str, ColumnValue),
>)
    requires
        spec_part_decodable(part@, value.spec_bytes()),
    ensures
        match spec_column(part@, value.spec_bytes()) {
            Some((name, found)) => column matches Some(pair) && pair.0@ == name && pair.1@
                == found,
            None => column is None,
        },
{
    proof {
        encode_utf8_decode_utf8(value@);
    }
    if is_null(value) {
        return None;
    }
    match part {
        TemplatePart::TagValue(col_name) => match parse_part_tag_value(value) {
            Some(found) => Some((*col_name, found)),
            None => None,
        },
        TemplatePart::TimeFormat(format) => match parse_part_time_format(value, format) {
            Some(found) => Some((TIME_COLUMN_NAME, found)),
            None => None,
        },
        TemplatePart::Bucket(col_name, num_buckets) => match parse_part_bucket(
            value,
            *num_buckets,
        ) {
            Some(found) => Some((*col_name, found)),
            None => None,
        },
    }
}

/// Reads the columns back out of `partition_key`, a key made from `template`:
/// one `(column name, column value)` pair for each part that holds a value,
/// in key order.
///
/// A missing value (`!`) yields no pair, and neither does a time part that
/// does not parse or whose format gives no range. Where key and template
/// differ in their number of parts, the parts that have no partner are
/// passed over.
///
/// The key must be readable: every tag value in it must decode to valid
/// UTF-8 and every bucket id must be a decimal `u32` below its number of
/// buckets. [`key_is_decodable`] tests this.
pub fn build_column_values<'a>(
    template: &'a TablePartitionTemplateOverride,
    partition_key: &'a str,
) -> (columns: Vec<(&'a str, ColumnValue)>)
    requires
        spec_key_decodable(
            template.spec_parts(),
            spec_split(partition_key.spec_bytes(), DELIMITER_BYTE),
        ),
    ensures
        spec_column_views(columns@) == spec_column_values(
            template.spec_parts(),
            partition_key.spec_bytes(),
        ),
{
    let parts = template.parts();
    let values = split_key(partition_key);
    let ghost part_specs = template.spec_parts();
    let ghost value_specs = spec_split(partition_key.spec_bytes(), DELIMITER_BYTE);
    let mut columns: Vec<(&'a str, ColumnValue)> = Vec::new();
    let mut i: usize = 0;
    assert(spec_column_views(columns@) =~= spec_columns_upto(part_specs, value_specs, 0));
    while i < parts.len() && i < values.len()
        invariant
            i <= parts@.len(),
            i <= values@.len(),
            part_specs == spec_part_views(parts@),
            value_specs == spec_bytes_of(values@),
            spec_key_decodable(part_specs, value_specs),
            spec_column_views(columns@) == spec_columns_upto(part_specs, value_specs, i as int),
        decreases parts@.len() - i,
    {
        let value: &'a str = values[i];
        let ghost before = spec_column_views(columns@);
        proof {
            assert(spec_part_decodable(part_specs[i as int], value_specs[i as int]));
            assert(value_specs[i as int] == value.spec_bytes());
            assert(part_specs[i as int] == parts@[i as int]@);
        }
        match build_column(&parts[i], value) {
            Some(pair) => {
                let ghost name = pair.0@;
                let ghost found = pair.1@;
                columns.push(pair);
                assert(spec_column_views(columns@) =~= before.push((name, found)));
            },
            None => {},
        }
        i = i + 1;
    }
    columns
}

} // verus!
