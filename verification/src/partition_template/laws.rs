//! What rendering a key and reading it back guarantee together.

use vstd::prelude::*;
use vstd::utf8::*;

use crate::bytes::spec_starts_with;
use crate::partition_template::bucket::spec_bucket;
use crate::partition_template::decimal::lemma_decimal_digits;
use crate::partition_template::decimal::lemma_parse_decimal_digits;
use crate::partition_template::decimal::lemma_u32_digits_len;
use crate::partition_template::decode::ColumnValueSpec;
use crate::partition_template::decode::DELIMITER_BYTE;
use crate::partition_template::decode::EMPTY_BYTE;
use crate::partition_template::decode::NULL_BYTE;
use crate::partition_template::decode::spec_column;
use crate::partition_template::decode::spec_column_values;
use crate::partition_template::decode::spec_is_null;
use crate::partition_template::decode::spec_is_truncated;
use crate::partition_template::decode::spec_key_decodable;
use crate::partition_template::decode::spec_part_decodable;
use crate::partition_template::decode::spec_tag_value_bytes;
use crate::partition_template::decode::TRUNCATED_BYTE;
use crate::partition_template::encode::grapheme_cluster_bytes;
use crate::partition_template::encode::lemma_kept_len;
use crate::partition_template::encode::lemma_value_part_bytes;
use crate::partition_template::encode::PARTITION_KEY_MAX_PART_LEN;
use crate::partition_template::encode::spec_buckets_nonzero;
use crate::partition_template::encode::spec_join;
use crate::partition_template::encode::spec_kept_len;
use crate::partition_template::encode::spec_key_part;
use crate::partition_template::encode::spec_key_parts;
use crate::partition_template::encode::spec_lookup;
use crate::partition_template::encode::spec_value_part;
use crate::partition_template::percent::lemma_decode_encode;
use crate::partition_template::percent::lemma_decode_encode_append;
use crate::partition_template::percent::lemma_encode_bytes;
use crate::partition_template::percent::spec_encoded_byte;
use crate::partition_template::percent::spec_percent_decode;
use crate::partition_template::percent::spec_percent_encode;
use crate::partition_template::validation::lemma_part_valid;
use crate::partition_template::validation::lemma_validate_accepts_valid;
use crate::partition_template::validation::MAXIMUM_NUMBER_OF_TEMPLATE_PARTS;
use crate::partition_template::validation::spec_part_valid;
use crate::partition_template::validation::spec_validate;
use crate::partition_template::split::lemma_find;
use crate::partition_template::split::spec_count;
use crate::partition_template::split::spec_find;
use crate::partition_template::split::spec_split;
use crate::partition_template::template::spec_set_parts;
use crate::proto::PartSpec;

verus! {

/// True when `s` does not hold the key delimiter.
pub open spec fn spec_delimiter_free(s: Seq<u8>) -> bool {
    forall|k: int| 0 <= k < s.len() ==> #[trigger] s[k] != DELIMITER_BYTE
}

/// True when the rendering of the row timestamp holds no delimiter, for
/// every time part of a template.
pub open spec fn spec_times_delimiter_free(parts: Seq<PartSpec>, rendered: Seq<Seq<u8>>) -> bool {
    forall|j: int|
        0 <= j < parts.len() && #[trigger] parts[j] is TimeFormat ==> spec_delimiter_free(
            rendered[j],
        )
}

/// Counting distributes over concatenation.
pub proof fn lemma_count_concat(a: Seq<u8>, b: Seq<u8>, byte: u8)
    ensures
        spec_count(a + b, byte) == spec_count(a, byte) + spec_count(b, byte),
    decreases b.len(),
{
    if b.len() == 0 {
        assert(a + b =~= a);
    } else {
        lemma_count_concat(a, b.drop_last(), byte);
        assert((a + b).drop_last() =~= a + b.drop_last());
    }
}

/// A sequence without the delimiter counts none.
pub proof fn lemma_count_delimiter_free(s: Seq<u8>)
    requires
        spec_delimiter_free(s),
    ensures
        spec_count(s, DELIMITER_BYTE) == 0,
    decreases s.len(),
{
    if s.len() > 0 {
        assert(s.last() == s[s.len() - 1]);
        assert forall|k: int| 0 <= k < s.drop_last().len() implies #[trigger] s.drop_last()[k]
            != DELIMITER_BYTE by {
            assert(s.drop_last()[k] == s[k]);
        }
        lemma_count_delimiter_free(s.drop_last());
    }
}

/// A key whose parts hold no delimiter holds one delimiter fewer than it has
/// parts.
pub proof fn lemma_join_delimiters(key_parts: Seq<Seq<u8>>)
    requires
        key_parts.len() >= 1,
        forall|i: int| 0 <= i < key_parts.len() ==> spec_delimiter_free(#[trigger] key_parts[i]),
    ensures
        spec_count(spec_join(key_parts), DELIMITER_BYTE) == key_parts.len() - 1,
    decreases key_parts.len(),
{
    lemma_count_delimiter_free(key_parts[0]);
    if key_parts.len() > 1 {
        let rest = key_parts.drop_first();
        assert forall|i: int| 0 <= i < rest.len() implies spec_delimiter_free(#[trigger] rest[i]) by {
            assert(rest[i] == key_parts[i + 1]);
        }
        lemma_join_delimiters(rest);
        let head = key_parts[0].push(DELIMITER_BYTE);
        assert(head.drop_last() =~= key_parts[0]);
        lemma_count_concat(head, spec_join(rest), DELIMITER_BYTE);
    }
}

/// Splitting a key whose parts hold no delimiter gives the parts back.
pub proof fn lemma_split_join(key_parts: Seq<Seq<u8>>)
    requires
        key_parts.len() >= 1,
        forall|i: int| 0 <= i < key_parts.len() ==> spec_delimiter_free(#[trigger] key_parts[i]),
    ensures
        spec_split(spec_join(key_parts), DELIMITER_BYTE) == key_parts,
    decreases key_parts.len(),
{
    let key = spec_join(key_parts);
    let first = key_parts[0];
    lemma_find(key, DELIMITER_BYTE);
    assert(spec_delimiter_free(first));
    if key_parts.len() == 1 {
        assert(spec_find(key, DELIMITER_BYTE) == key.len());
        assert(spec_split(key, DELIMITER_BYTE) =~= key_parts);
    } else {
        let rest = key_parts.drop_first();
        assert forall|i: int| 0 <= i < rest.len() implies spec_delimiter_free(#[trigger] rest[i]) by {
            assert(rest[i] == key_parts[i + 1]);
        }
        lemma_split_join(rest);
        assert(key[first.len() as int] == DELIMITER_BYTE);
        assert forall|k: int| 0 <= k < first.len() implies key[k] != DELIMITER_BYTE by {
            assert(key[k] == first[k]);
        }
        assert(spec_find(key, DELIMITER_BYTE) == first.len());
        assert(key.take(first.len() as int) =~= first);
        assert(key.skip(first.len() as int + 1) =~= spec_join(rest));
        assert(spec_split(key, DELIMITER_BYTE) =~= seq![first] + rest);
        assert(seq![first] + rest =~= key_parts);
    }
}

/// What reading back the key part of a tag value gives: the value itself,
/// or, where the part was cut short, a prefix of the value.
pub proof fn lemma_value_part_round_trip(text: Seq<char>)
    ensures
        !spec_is_null(spec_value_part(text)),
        valid_utf8(spec_tag_value_bytes(spec_value_part(text))),
        spec_is_truncated(spec_value_part(text)) ==> spec_starts_with(
            encode_utf8(text),
            spec_tag_value_bytes(spec_value_part(text)),
        ),
        !spec_is_truncated(spec_value_part(text)) ==> spec_tag_value_bytes(spec_value_part(text))
            == encode_utf8(text),
{
    let value = encode_utf8(text);
    let part = spec_value_part(text);
    lemma_value_part_bytes(text);
    encode_utf8_valid_utf8(text);
    assert(seq![EMPTY_BYTE][0] == EMPTY_BYTE);
    if value.len() == 0 {
        assert(value =~= Seq::<u8>::empty());
    } else if spec_percent_encode(value).len() <= PARTITION_KEY_MAX_PART_LEN {
        lemma_encode_bytes(value);
        assert(spec_encoded_byte(part[0]));
        assert(spec_encoded_byte(part[part.len() - 1]));
        lemma_decode_encode(value);
    } else {
        let clusters = grapheme_cluster_bytes(text);
        assert(value.take(0) =~= Seq::<u8>::empty());
        assert(spec_percent_encode(Seq::<u8>::empty()) =~= Seq::<u8>::empty());
        lemma_kept_len(value, clusters, 0, 0, 0);
        let kept = value.take(spec_kept_len(value, clusters, 0, 0, 0));
        let marker = seq![TRUNCATED_BYTE];
        assert(part =~= spec_percent_encode(kept) + marker);
        assert(part.last() == TRUNCATED_BYTE);
        assert(spec_is_truncated(part));
        lemma_decode_encode_append(kept, marker);
        assert(marker.skip(1) =~= Seq::<u8>::empty());
        assert(spec_percent_decode(marker.skip(1)) =~= Seq::<u8>::empty());
        assert(spec_percent_decode(marker) =~= marker);
        assert((kept + marker).drop_last() =~= kept);
        assert(value.subrange(0, kept.len() as int) =~= kept);
    }
}

/// Rendering a key and splitting it gives one key part for each template
/// part, provided no rendering of the timestamp holds the delimiter.
pub proof fn lemma_key_parts_survive(
    parts: Seq<PartSpec>,
    row: Seq<(Seq<char>, Seq<char>)>,
    rendered: Seq<Seq<u8>>,
)
    requires
        parts.len() >= 1,
        rendered.len() == parts.len(),
        spec_times_delimiter_free(parts, rendered),
    ensures
        spec_split(spec_join(spec_key_parts(parts, row, rendered)), DELIMITER_BYTE)
            == spec_key_parts(parts, row, rendered),
        spec_count(spec_join(spec_key_parts(parts, row, rendered)), DELIMITER_BYTE) == parts.len()
            - 1,
{
    let key_parts = spec_key_parts(parts, row, rendered);
    assert forall|i: int| 0 <= i < key_parts.len() implies spec_delimiter_free(
        #[trigger] key_parts[i],
    ) by {
        lemma_key_part_delimiter_free(parts[i], row, rendered[i]);
    }
    lemma_split_join(key_parts);
    lemma_join_delimiters(key_parts);
}

/// A key part holds no delimiter, unless it is a rendering of the timestamp
/// that holds one.
pub proof fn lemma_key_part_delimiter_free(
    part: PartSpec,
    row: Seq<(Seq<char>, Seq<char>)>,
    rendered: Seq<u8>,
)
    requires
        part is TimeFormat ==> spec_delimiter_free(rendered),
    ensures
        spec_delimiter_free(spec_key_part(part, row, rendered)),
{
    match part {
        PartSpec::TagValue(name) => match spec_lookup(row, name) {
            Some(text) => {
                lemma_value_part_bytes(text);
            },
            None => {},
        },
        PartSpec::TimeFormat(_) => {},
        PartSpec::Bucket(name, num_buckets) => match spec_lookup(row, name) {
            Some(text) => {
                lemma_decimal_digits(spec_bucket(encode_utf8(text), num_buckets) as nat);
            },
            None => {},
        },
    }
}

/// Every delimiter of a rendered key stands between two parts: a key
/// rendered from a template of `n` parts holds exactly `n - 1` delimiters.
///
/// This holds where no rendering of the row timestamp holds the delimiter
/// itself; a time format with a literal `|` breaks it.
pub proof fn lemma_key_delimiter_count(
    parts: Seq<PartSpec>,
    row: Seq<(Seq<char>, Seq<char>)>,
    rendered: Seq<Seq<u8>>,
)
    requires
        parts.len() >= 1,
        rendered.len() == parts.len(),
        spec_times_delimiter_free(parts, rendered),
    ensures
        spec_count(spec_join(spec_key_parts(parts, row, rendered)), DELIMITER_BYTE) == parts.len()
            - 1,
{
    lemma_key_parts_survive(parts, row, rendered);
}

/// Reading a rendered key gives, for a tag part whose column the row holds,
/// that column with the value of the row, or with a prefix of it where the
/// value was cut short.
///
/// This holds where no rendering of the row timestamp holds the delimiter.
pub proof fn lemma_tag_value_round_trip(
    parts: Seq<PartSpec>,
    row: Seq<(Seq<char>, Seq<char>)>,
    rendered: Seq<Seq<u8>>,
    index: int,
)
    requires
        rendered.len() == parts.len(),
        spec_times_delimiter_free(parts, rendered),
        0 <= index < parts.len(),
        parts[index] is TagValue,
        spec_lookup(row, parts[index]->TagValue_0) is Some,
    ensures
        ({
            let values = spec_split(
                spec_join(spec_key_parts(parts, row, rendered)),
                DELIMITER_BYTE,
            );
            let text = spec_lookup(row, parts[index]->TagValue_0)->0;
            &&& values.len() == parts.len()
            &&& spec_part_decodable(parts[index], values[index])
            &&& spec_column(parts[index], values[index]) matches Some((column, found))
            &&& column == parts[index]->TagValue_0
            &&& (found == ColumnValueSpec::Identity(text) || (found matches ColumnValueSpec::Prefix(
                prefix,
            ) && spec_starts_with(encode_utf8(text), encode_utf8(prefix))))
        }),
{
    lemma_key_parts_survive(parts, row, rendered);
    let text = spec_lookup(row, parts[index]->TagValue_0)->0;
    let part = spec_value_part(text);
    assert(spec_key_parts(parts, row, rendered)[index] == part);
    lemma_value_part_round_trip(text);
    let bytes = spec_tag_value_bytes(part);
    decode_utf8_encode_utf8(bytes);
    if !spec_is_truncated(part) {
        encode_utf8_decode_utf8(text);
    }
}

/// Reading a rendered key gives, for a bucket part whose column the row
/// holds, that column with the bucket that the value of the row hashes to.
///
/// This holds where no rendering of the row timestamp holds the delimiter
/// and the part asks for at least one bucket.
pub proof fn lemma_bucket_round_trip(
    parts: Seq<PartSpec>,
    row: Seq<(Seq<char>, Seq<char>)>,
    rendered: Seq<Seq<u8>>,
    index: int,
)
    requires
        rendered.len() == parts.len(),
        spec_times_delimiter_free(parts, rendered),
        0 <= index < parts.len(),
        parts[index] is Bucket,
        parts[index]->Bucket_1 > 0,
        spec_lookup(row, parts[index]->Bucket_0) is Some,
    ensures
        ({
            let values = spec_split(
                spec_join(spec_key_parts(parts, row, rendered)),
                DELIMITER_BYTE,
            );
            let text = spec_lookup(row, parts[index]->Bucket_0)->0;
            let num_buckets = parts[index]->Bucket_1;
            &&& spec_part_decodable(parts[index], values[index])
            &&& spec_column(parts[index], values[index]) == Some(
                (
                    parts[index]->Bucket_0,
                    ColumnValueSpec::Bucket {
                        id: spec_bucket(encode_utf8(text), num_buckets) as u32,
                        num_buckets,
                    },
                ),
            )
        }),
{
    lemma_key_parts_survive(parts, row, rendered);
    let text = spec_lookup(row, parts[index]->Bucket_0)->0;
    let num_buckets = parts[index]->Bucket_1;
    let id = spec_bucket(encode_utf8(text), num_buckets);
    assert(0 <= id < num_buckets);
    lemma_parse_decimal_digits(id as u32);
    lemma_decimal_digits(id as nat);
    let digits = spec_key_parts(parts, row, rendered)[index];
    assert(digits[0] != NULL_BYTE);
    assert(seq![NULL_BYTE][0] == NULL_BYTE);
}

/// A rendered key can be read back: every tag value in it decodes to valid
/// UTF-8 and every bucket id is a decimal number below its number of
/// buckets.
///
/// This holds where no rendering of the row timestamp holds the delimiter
/// and every bucket part asks for at least one bucket.
pub proof fn lemma_rendered_key_decodable(
    parts: Seq<PartSpec>,
    row: Seq<(Seq<char>, Seq<char>)>,
    rendered: Seq<Seq<u8>>,
)
    requires
        parts.len() >= 1,
        rendered.len() == parts.len(),
        spec_times_delimiter_free(parts, rendered),
        spec_buckets_nonzero(parts),
    ensures
        spec_key_decodable(
            parts,
            spec_split(spec_join(spec_key_parts(parts, row, rendered)), DELIMITER_BYTE),
        ),
{
    lemma_key_parts_survive(parts, row, rendered);
    let values = spec_key_parts(parts, row, rendered);
    assert forall|i: int| 0 <= i < parts.len() && i < values.len() implies spec_part_decodable(
        #[trigger] parts[i],
        values[i],
    ) by {
        match parts[i] {
            PartSpec::TagValue(name) => match spec_lookup(row, name) {
                Some(text) => {
                    lemma_value_part_round_trip(text);
                },
                None => {},
            },
            PartSpec::TimeFormat(_) => {},
            PartSpec::Bucket(name, num_buckets) => match spec_lookup(row, name) {
                Some(text) => {
                    let id = spec_bucket(encode_utf8(text), num_buckets);
                    assert(0 <= id < num_buckets);
                    lemma_parse_decimal_digits(id as u32);
                },
                None => {},
            },
        }
    }
}

/// Reading a key twice under the same template gives the same columns.
pub proof fn lemma_decoding_is_repeatable(
    parts: Seq<PartSpec>,
    key: Seq<u8>,
    first: Seq<(Seq<char>, ColumnValueSpec)>,
    second: Seq<(Seq<char>, ColumnValueSpec)>,
)
    requires
        first == spec_column_values(parts, key),
        second == spec_column_values(parts, key),
    ensures
        first == second,
{
}

/// A key of `n` parts of at most `limit` bytes each has at most
/// `n * limit + n - 1` bytes.
pub proof fn lemma_join_len(key_parts: Seq<Seq<u8>>, limit: nat)
    requires
        key_parts.len() >= 1,
        forall|i: int| 0 <= i < key_parts.len() ==> (#[trigger] key_parts[i]).len() <= limit,
    ensures
        spec_join(key_parts).len() <= key_parts.len() * limit + key_parts.len() - 1,
    decreases key_parts.len(),
{
    if key_parts.len() > 1 {
        let rest = key_parts.drop_first();
        assert forall|i: int| 0 <= i < rest.len() implies (#[trigger] rest[i]).len() <= limit by {
            assert(rest[i] == key_parts[i + 1]);
        }
        lemma_join_len(rest, limit);
        assert(key_parts.len() * limit == rest.len() * limit + limit) by (nonlinear_arith)
            requires
                key_parts.len() == rest.len() + 1,
        ;
    } else {
        assert(key_parts.len() * limit == limit) by (nonlinear_arith)
            requires
                key_parts.len() == 1,
        ;
    }
}

/// A key rendered from a template of at most eight parts has at most 1607
/// bytes: eight parts of 200 bytes and seven delimiters.
///
/// This holds where every bucket part asks for at least one bucket and no
/// rendering of the row timestamp is longer than a key part may be.
pub proof fn lemma_key_length(
    parts: Seq<PartSpec>,
    row: Seq<(Seq<char>, Seq<char>)>,
    rendered: Seq<Seq<u8>>,
)
    requires
        1 <= parts.len() <= MAXIMUM_NUMBER_OF_TEMPLATE_PARTS,
        rendered.len() == parts.len(),
        spec_buckets_nonzero(parts),
        forall|j: int|
            0 <= j < parts.len() && #[trigger] parts[j] is TimeFormat ==> rendered[j].len()
                <= PARTITION_KEY_MAX_PART_LEN,
    ensures
        spec_join(spec_key_parts(parts, row, rendered)).len() <= 1607,
{
    let key_parts = spec_key_parts(parts, row, rendered);
    assert forall|i: int| 0 <= i < key_parts.len() implies (#[trigger] key_parts[i]).len()
        <= 200 by {
        match parts[i] {
            PartSpec::TagValue(name) => match spec_lookup(row, name) {
                Some(text) => {
                    lemma_value_part_bytes(text);
                },
                None => {},
            },
            PartSpec::TimeFormat(_) => {},
            PartSpec::Bucket(name, num_buckets) => match spec_lookup(row, name) {
                Some(text) => {
                    let id = spec_bucket(encode_utf8(text), num_buckets);
                    assert(0 <= id < num_buckets);
                    lemma_u32_digits_len(id as u32);
                },
                None => {},
            },
        }
    }
    lemma_join_len(key_parts, 200);
    assert(key_parts.len() * 200 + key_parts.len() - 1 <= 1607) by (nonlinear_arith)
        requires
            1 <= key_parts.len() <= 8,
    ;
}

/// Every set part of a message is one of its parts, and a message has at
/// least as many parts as set parts.
pub proof fn lemma_set_parts_members(message: Seq<Option<PartSpec>>)
    ensures
        spec_set_parts(message).len() <= message.len(),
        forall|k: int|
            0 <= k < spec_set_parts(message).len() ==> exists|i: int|
                0 <= i < message.len() && message[i] == Some(#[trigger] spec_set_parts(message)[k]),
    decreases message.len(),
{
    if message.len() > 0 {
        let earlier = message.drop_last();
        lemma_set_parts_members(earlier);
        assert forall|k: int| 0 <= k < spec_set_parts(message).len() implies exists|i: int|
            0 <= i < message.len() && message[i] == Some(
                #[trigger] spec_set_parts(message)[k],
            ) by {
            if k < spec_set_parts(earlier).len() {
                let i = choose|i: int|
                    0 <= i < earlier.len() && earlier[i] == Some(spec_set_parts(earlier)[k]);
                assert(message[i] == earlier[i]);
            } else {
                assert(message[message.len() - 1] == Some(spec_set_parts(message)[k]));
            }
        }
    }
}

/// A template that validation accepts has at most eight parts, and each of
/// its bucket parts asks for at least one bucket and fewer than 100 000.
pub proof fn lemma_valid_template_parts(message: Seq<Option<PartSpec>>)
    requires
        spec_validate(message) is None,
    ensures
        spec_set_parts(message).len() <= MAXIMUM_NUMBER_OF_TEMPLATE_PARTS,
        spec_buckets_nonzero(spec_set_parts(message)),
        forall|k: int|
            0 <= k < spec_set_parts(message).len() ==> (#[trigger] spec_set_parts(
                message,
            )[k] matches PartSpec::Bucket(_, num_buckets) ==> 1 <= num_buckets < 100_000),
{
    lemma_validate_accepts_valid(message);
    lemma_set_parts_members(message);
    let parts = spec_set_parts(message);
    assert forall|k: int| 0 <= k < parts.len() implies (#[trigger] parts[k] matches PartSpec::Bucket(
        _,
        num_buckets,
    ) ==> 1 <= num_buckets < 100_000) by {
        let i = choose|i: int| 0 <= i < message.len() && message[i] == Some(parts[k]);
        assert(spec_part_valid(message, i));
        lemma_part_valid(message, i);
    }
}

} // verus!
