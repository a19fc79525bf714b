//! Rendering the partition key of a row.
//!
//! Each template part gives one key part. A tag part gives the value of its
//! column: `!` where the row has none, `^` where it is the empty string,
//! else the percent-encoded value, cut short and closed with `#` where the
//! encoding is longer than 200 bytes. A time part gives the row timestamp
//! rendered in UTC. A bucket part gives the decimal bucket id of the value,
//! or `!`. The key parts are joined by `|`.

use vstd::prelude::*;
use vstd::string::StringSliceAdditionalSpecFns;
use vstd::utf8::*;

use unicode_segmentation::UnicodeSegmentation;

use crate::bytes::bytes_eq;
use crate::bytes::occurs_at;
use crate::bytes::spec_occurs_at;
use crate::bytes::string_from_utf8;
use crate::partition_template::bucket::bucket_for_tag_value;
use crate::partition_template::bucket::spec_bucket;
use crate::partition_template::decimal::decimal_digits;
use crate::partition_template::decode::DELIMITER_BYTE;
use crate::partition_template::decode::EMPTY_BYTE;
use crate::partition_template::decode::NULL_BYTE;
use crate::partition_template::decode::TRUNCATED_BYTE;
use crate::partition_template::percent::lemma_encode_bytes;
use crate::partition_template::percent::lemma_encode_concat;
use crate::partition_template::percent::percent_encode;
use crate::partition_template::percent::spec_encoded_byte;
use crate::partition_template::percent::spec_percent_encode;
use crate::partition_template::split::spec_bytes_of;
use crate::partition_template::strftime::render_time;
use crate::partition_template::strftime::strftime_rendering;
use crate::partition_template::template::spec_part_views;
use crate::partition_template::template::TablePartitionTemplateOverride;
use crate::partition_template::template::TemplatePart;
use crate::proto::PartSpec;

verus! {

/// The most bytes a key part may have, after encoding.
pub const PARTITION_KEY_MAX_PART_LEN: usize = 200;

/// Why no key can be rendered for a row.
#[derive(Debug, Clone, Copy, PartialEq, Eq)]
pub enum PartitionKeyError {
    /// A time format of the template does not render the row timestamp.
    InvalidStrftime,
}

/// The UTF-8 bytes of the extended grapheme clusters of a text, in order.
pub uninterp spec fn grapheme_cluster_bytes(text: Seq<char>) -> Seq<Seq<u8>>;

/// The value that a row holds for a column: that of the first pair with the
/// column's name.
pub open spec fn spec_lookup(row: Seq<(Seq<char>, Seq<char>)>, name: Seq<char>) -> Option<
    Seq<char>,
>
    decreases row.len(),
{
    if row.len() == 0 {
        None
    } else if row[0].0 == name {
        Some(row[0].1)
    } else {
        spec_lookup(row.drop_first(), name)
    }
}

/// The row that a list of `(column, value)` pairs stands for.
pub open spec fn spec_row(tags: Seq<(String, String)>) -> Seq<(Seq<char>, Seq<char>)> {
    Seq::new(tags.len(), |i: int| (tags[i].0@, tags[i].1@))
}

/// True when the cluster at index `from` continues the kept prefix: it is
/// valid UTF-8, it is what `value` holds at `offset`, and with its encoding
/// the part stays under the limit.
pub open spec fn spec_keeps(
    value: Seq<u8>,
    clusters: Seq<Seq<u8>>,
    from: int,
    offset: int,
    used: int,
) -> bool {
    0 <= from < clusters.len() && valid_utf8(clusters[from]) && spec_occurs_at(
        value,
        clusters[from],
        offset,
    ) && used + spec_percent_encode(clusters[from]).len() < PARTITION_KEY_MAX_PART_LEN
}

/// The number of bytes of `value` that are kept when it is cut short: the
/// clusters are taken in order, from index `from` on, for as long as each
/// continues the prefix.
pub open spec fn spec_kept_len(
    value: Seq<u8>,
    clusters: Seq<Seq<u8>>,
    from: int,
    offset: int,
    used: int,
) -> int
    decreases clusters.len() - from,
{
    if spec_keeps(value, clusters, from, offset, used) {
        spec_kept_len(
            value,
            clusters,
            from + 1,
            offset + clusters[from].len(),
            used + spec_percent_encode(clusters[from]).len(),
        )
    } else {
        offset
    }
}

/// The key part of a value that is cut short: the encoding of as many whole
/// grapheme clusters as fit, and the truncation marker.
pub open spec fn spec_truncated_part(value: Seq<u8>, clusters: Seq<Seq<u8>>) -> Seq<u8> {
    spec_percent_encode(value.take(spec_kept_len(value, clusters, 0, 0, 0))).push(TRUNCATED_BYTE)
}

/// The key part that stands for a tag value.
pub open spec fn spec_value_part(text: Seq<char>) -> Seq<u8> {
    let value = encode_utf8(text);
    if value.len() == 0 {
        seq![EMPTY_BYTE]
    } else if spec_percent_encode(value).len() <= PARTITION_KEY_MAX_PART_LEN {
        spec_percent_encode(value)
    } else {
        spec_truncated_part(value, grapheme_cluster_bytes(text))
    }
}

/// The key part that a template part gives for a row; `rendered` is the
/// rendering of the row timestamp, which a time part hands on.
pub open spec fn spec_key_part(
    part: PartSpec,
    row: Seq<(Seq<char>, Seq<char>)>,
    rendered: Seq<u8>,
) -> Seq<u8> {
    match part {
        PartSpec::TagValue(name) => match spec_lookup(row, name) {
            Some(text) => spec_value_part(text),
            None => seq![NULL_BYTE],
        },
        PartSpec::TimeFormat(_) => rendered,
        PartSpec::Bucket(name, num_buckets) => match spec_lookup(row, name) {
            Some(text) => decimal_digits(spec_bucket(encode_utf8(text), num_buckets) as nat),
            None => seq![NULL_BYTE],
        },
    }
}

/// The key parts that the parts of a template give for a row; `rendered`
/// holds, for each time part, the rendering of the row timestamp.
pub open spec fn spec_key_parts(
    parts: Seq<PartSpec>,
    row: Seq<(Seq<char>, Seq<char>)>,
    rendered: Seq<Seq<u8>>,
) -> Seq<Seq<u8>> {
    Seq::new(parts.len(), |i: int| spec_key_part(parts[i], row, rendered[i]))
}

/// The rendering of the row timestamp for one template part: that of its
/// format for a time part, and nothing for the other parts.
pub open spec fn spec_rendered_time(part: PartSpec, nanos: i64) -> Option<Seq<u8>> {
    match part {
        PartSpec::TimeFormat(format) => match strftime_rendering(nanos, format) {
            Some(text) => Some(encode_utf8(text)),
            None => None,
        },
        _ => Some(Seq::empty()),
    }
}

/// True when every time part of a template renders the timestamp.
pub open spec fn spec_renders(parts: Seq<PartSpec>, nanos: i64) -> bool {
    forall|i: int| 0 <= i < parts.len() ==> spec_rendered_time(#[trigger] parts[i], nanos) is Some
}

/// The renderings of the row timestamp, part by part.
pub open spec fn spec_rendered_times(parts: Seq<PartSpec>, nanos: i64) -> Seq<Seq<u8>> {
    Seq::new(parts.len(), |i: int| spec_rendered_time(parts[i], nanos)->0)
}

/// The key parts joined by the delimiter.
pub open spec fn spec_join(key_parts: Seq<Seq<u8>>) -> Seq<u8>
    decreases key_parts.len(),
{
    if key_parts.len() == 0 {
        Seq::empty()
    } else if key_parts.len() == 1 {
        key_parts[0]
    } else {
        key_parts[0].push(DELIMITER_BYTE) + spec_join(key_parts.drop_first())
    }
}

/// The partition key of a row under the parts of a template.
pub open spec fn spec_partition_key(
    parts: Seq<PartSpec>,
    nanos: i64,
    row: Seq<(Seq<char>, Seq<char>)>,
) -> Seq<u8> {
    spec_join(spec_key_parts(parts, row, spec_rendered_times(parts, nanos)))
}

/// Joining one more part appends the delimiter and the part.
pub proof fn lemma_join_push(key_parts: Seq<Seq<u8>>, part: Seq<u8>)
    requires
        key_parts.len() >= 1,
    ensures
        spec_join(key_parts.push(part)) == spec_join(key_parts).push(DELIMITER_BYTE) + part,
    decreases key_parts.len(),
{
    let longer = key_parts.push(part);
    if key_parts.len() == 1 {
        assert(longer.drop_first() =~= seq![part]);
        assert(spec_join(seq![part]) == part);
        assert(spec_join(longer) =~= spec_join(key_parts).push(DELIMITER_BYTE) + part);
    } else {
        lemma_join_push(key_parts.drop_first(), part);
        assert(longer.drop_first() =~= key_parts.drop_first().push(part));
        assert(spec_join(longer) =~= spec_join(key_parts).push(DELIMITER_BYTE) + part);
    }
}

/// Bytes that are all ASCII are valid UTF-8.
pub proof fn lemma_ascii_is_utf8(bytes: Seq<u8>)
    requires
        forall|i: int| 0 <= i < bytes.len() ==> #[trigger] bytes[i] < 0x80,
    ensures
        valid_utf8(bytes),
{
    assert(bytes.subrange(0, 0) =~= Seq::<u8>::empty());
    assert(valid_utf8(bytes.subrange(0, 0)));
    assert(partial_valid_utf8(bytes, 0));
    partial_valid_utf8_extend_ascii_block(bytes, 0, bytes.len() as int);
    assert(bytes.subrange(0, bytes.len() as int) =~= bytes);
}

/// Calls `UnicodeSegmentation::graphemes` for extended clusters and
/// collects the clusters.
///
/// Trusted: the result lists the extended grapheme clusters of `text` in
/// order. Nothing is assumed of how they relate to `text`.
#[verifier::external_body]
fn graphemes<'a>(text: &'a str) -> (clusters: Vec<&'a str>)
    ensures
        spec_bytes_of(clusters@) == grapheme_cluster_bytes(text@),
{
    text.graphemes(true).collect()
}

/// Looks up the value that a row holds for a column.
pub fn lookup_tag<'a>(tags: &'a Vec<(String, String)>, name: &str) -> (value: Option<&'a str>)
    ensures
        value is Some <==> spec_lookup(spec_row(tags@), name@) is Some,
        value matches Some(text) ==> spec_lookup(spec_row(tags@), name@) == Some(text@),
{
    let ghost row = spec_row(tags@);
    let mut i: usize = 0;
    assert(row.skip(0) =~= row);
    while i < tags.len()
        invariant
            i <= tags@.len(),
            row == spec_row(tags@),
            spec_lookup(row, name@) == spec_lookup(row.skip(i as int), name@),
        decreases tags@.len() - i,
    {
        let ghost rest = row.skip(i as int);
        assert(rest[0] == row[i as int]);
        assert(rest.drop_first() =~= row.skip(i + 1));
        if bytes_eq(tags[i].0.as_str().as_bytes(), name.as_bytes()) {
            proof {
                crate::bytes::lemma_same_bytes_same_text(
                    tags@[i as int].0@,
                    name@,
                );
            }
            return Some(tags[i].1.as_str());
        }
        i = i + 1;
    }
    None
}

/// Cuts a value short: keeps the whole grapheme clusters whose encoding
/// fits, and appends the truncation marker.
///
/// A cluster is kept only where it is what the value holds next, so that
/// what is kept is a prefix of the value whatever the clusters are.
pub fn truncate_value(value: &str, clusters: &Vec<&str>) -> (part: Vec<u8>)
    ensures
        part@ == spec_truncated_part(value.spec_bytes(), spec_bytes_of(clusters@)),
        part@.len() <= PARTITION_KEY_MAX_PART_LEN,
{
    let raw = value.as_bytes();
    let ghost all = spec_bytes_of(clusters@);
    let mut out: Vec<u8> = Vec::new();
    let mut offset: usize = 0;
    let mut i: usize = 0;
    let mut stop = false;
    proof {
        assert(raw@.take(0) =~= Seq::<u8>::empty());
        assert(out@ =~= spec_percent_encode(raw@.take(0)));
    }
    while i < clusters.len() && !stop
        invariant
            i <= clusters@.len(),
            all == spec_bytes_of(clusters@),
            raw@ == value.spec_bytes(),
            offset <= raw@.len(),
            out@ == spec_percent_encode(raw@.take(offset as int)),
            out@.len() < PARTITION_KEY_MAX_PART_LEN,
            !stop ==> spec_kept_len(raw@, all, 0, 0, 0) == spec_kept_len(
                raw@,
                all,
                i as int,
                offset as int,
                out@.len() as int,
            ),
            stop ==> spec_kept_len(raw@, all, 0, 0, 0) == offset,
        decreases clusters@.len() - i + if stop { 0int } else { 1int },
    {
        let cluster = clusters[i].as_bytes();
        assert(cluster@ == all[i as int]);
        proof {
            encode_utf8_valid_utf8(clusters@[i as int]@);
        }
        let fits = cluster.len() <= raw.len() - offset && occurs_at(raw, cluster, offset);
        let mut kept = false;
        if fits {
            let encoded = percent_encode(cluster);
            if encoded.len() < PARTITION_KEY_MAX_PART_LEN - out.len() {
                proof {
                    lemma_encode_concat(raw@.take(offset as int), cluster@);
                    assert(raw@.take(offset as int) + cluster@ =~= raw@.take(offset + cluster@.len()));
                }
                out.extend_from_slice(encoded.as_slice());
                offset = offset + cluster.len();
                kept = true;
            }
        }
        if kept {
            i = i + 1;
        } else {
            stop = true;
        }
    }
    out.push(TRUNCATED_BYTE);
    out
}

/// Renders the key part of a tag value.
pub fn encode_key_part(value: &str) -> (part: Vec<u8>)
    ensures
        part@ == spec_value_part(value@),
{
    let raw = value.as_bytes();
    if raw.len() == 0 {
        let mut out: Vec<u8> = Vec::new();
        out.push(EMPTY_BYTE);
        assert(out@ =~= seq![EMPTY_BYTE]);
        return out;
    }
    let encoded = percent_encode(raw);
    if encoded.len() <= PARTITION_KEY_MAX_PART_LEN {
        return encoded;
    }
    let clusters = graphemes(value);
    truncate_value(value, &clusters)
}

/// Writes a bucket id in decimal.
pub fn render_u32(n: u32) -> (digits: Vec<u8>)
    ensures
        digits@ == decimal_digits(n as nat),
    decreases n,
{
    if n < 10 {
        let mut out: Vec<u8> = Vec::new();
        out.push(0x30 + (n as u8));
        assert(out@ =~= decimal_digits(n as nat));
        out
    } else {
        let mut out = render_u32(n / 10);
        out.push(0x30 + ((n % 10) as u8));
        out
    }
}

/// The single byte that stands for a missing value.
fn null_part() -> (part: Vec<u8>)
    ensures
        part@ == seq![NULL_BYTE],
{
    let mut out: Vec<u8> = Vec::new();
    out.push(NULL_BYTE);
    assert(out@ =~= seq![NULL_BYTE]);
    out
}

/// True when the values of a row are short enough to be hashed.
pub open spec fn spec_row_hashable(row: Seq<(Seq<char>, Seq<char>)>) -> bool {
    forall|i: int| 0 <= i < row.len() ==> encode_utf8((#[trigger] row[i]).1).len() <= u32::MAX
}

/// True when every bucket part of a template asks for at least one bucket.
pub open spec fn spec_buckets_nonzero(parts: Seq<PartSpec>) -> bool {
    forall|i: int|
        0 <= i < parts.len() ==> (#[trigger] parts[i] matches PartSpec::Bucket(_, num_buckets)
            ==> num_buckets > 0)
}

/// What the row holds for a column is one of its values.
proof fn lemma_lookup_in_row(row: Seq<(Seq<char>, Seq<char>)>, name: Seq<char>)
    ensures
        spec_lookup(row, name) matches Some(text) ==> exists|i: int|
            0 <= i < row.len() && (#[trigger] row[i]).1 == text,
    decreases row.len(),
{
    if row.len() > 0 && row[0].0 != name {
        lemma_lookup_in_row(row.drop_first(), name);
        if spec_lookup(row, name) is Some {
            let i = choose|i: int|
                0 <= i < row.drop_first().len() && (#[trigger] row.drop_first()[i]).1
                    == spec_lookup(row, name)->0;
            assert(row[i + 1] == row.drop_first()[i]);
        }
    }
}

/// Renders the key part that one template part gives for a row, `None`
/// where the part is a time format that does not render the timestamp.
pub fn render_part(part: &TemplatePart<'_>, nanos: i64, tags: &Vec<(String, String)>) -> (rendered:
    Option<Vec<u8>>)
    requires
        spec_row_hashable(spec_row(tags@)),
        part@ matches PartSpec::Bucket(_, num_buckets) ==> num_buckets > 0,
    ensures
        rendered is Some <==> spec_rendered_time(part@, nanos) is Some,
        rendered matches Some(bytes) ==> bytes@ == spec_key_part(
            part@,
            spec_row(tags@),
            spec_rendered_time(part@, nanos)->0,
        ),
{
    match part {
        TemplatePart::TagValue(name) => match lookup_tag(tags, name) {
            Some(value) => Some(encode_key_part(value)),
            None => Some(null_part()),
        },
        TemplatePart::TimeFormat(format) => match render_time(nanos, format) {
            Some(text) => {
                let bytes = text.as_str().as_bytes();
                let mut out: Vec<u8> = Vec::new();
                out.extend_from_slice(bytes);
                assert(out@ =~= encode_utf8(text@));
                Some(out)
            },
            None => None,
        },
        TemplatePart::Bucket(name, num_buckets) => match lookup_tag(tags, name) {
            Some(value) => {
                proof {
                    lemma_lookup_in_row(spec_row(tags@), name@);
                }
                Some(render_u32(bucket_for_tag_value(value, *num_buckets)))
            },
            None => Some(null_part()),
        },
    }
}

/// A kept prefix is a valid UTF-8 prefix of the value whose encoding stays
/// under the limit.
pub proof fn lemma_kept_len(
    value: Seq<u8>,
    clusters: Seq<Seq<u8>>,
    from: int,
    offset: int,
    used: int,
)
    requires
        0 <= from,
        0 <= offset <= value.len(),
        valid_utf8(value.take(offset)),
        used == spec_percent_encode(value.take(offset)).len(),
        used < PARTITION_KEY_MAX_PART_LEN,
    ensures
        offset <= spec_kept_len(value, clusters, from, offset, used) <= value.len(),
        valid_utf8(value.take(spec_kept_len(value, clusters, from, offset, used))),
        spec_percent_encode(value.take(spec_kept_len(value, clusters, from, offset, used))).len()
            < PARTITION_KEY_MAX_PART_LEN,
    decreases clusters.len() - from,
{
    if spec_keeps(value, clusters, from, offset, used) {
        let cluster = clusters[from];
        let next = offset + cluster.len();
        assert(value.take(offset) + cluster =~= value.take(next));
        valid_utf8_concat(value.take(offset), cluster);
        lemma_encode_concat(value.take(offset), cluster);
        lemma_kept_len(
            value,
            clusters,
            from + 1,
            next,
            used + spec_percent_encode(cluster).len(),
        );
    }
}

/// The key part of a tag value is one to 200 bytes of ASCII without the
/// delimiter.
pub proof fn lemma_value_part_bytes(text: Seq<char>)
    ensures
        1 <= spec_value_part(text).len() <= PARTITION_KEY_MAX_PART_LEN,
        forall|i: int|
            0 <= i < spec_value_part(text).len() ==> (#[trigger] spec_value_part(text)[i]) < 0x80
                && spec_value_part(text)[i] != DELIMITER_BYTE,
        spec_value_part(text) != seq![NULL_BYTE],
{
    let value = encode_utf8(text);
    let part = spec_value_part(text);
    assert(seq![NULL_BYTE][0] == NULL_BYTE);
    if value.len() == 0 {
        assert(part[0] == EMPTY_BYTE);
    } else if spec_percent_encode(value).len() <= PARTITION_KEY_MAX_PART_LEN {
        lemma_encode_bytes(value);
        assert(spec_encoded_byte(part[0]));
    } else {
        let clusters = grapheme_cluster_bytes(text);
        assert(value.take(0) =~= Seq::<u8>::empty());
        assert(spec_percent_encode(Seq::<u8>::empty()) =~= Seq::<u8>::empty());
        lemma_kept_len(value, clusters, 0, 0, 0);
        let kept = value.take(spec_kept_len(value, clusters, 0, 0, 0));
        lemma_encode_bytes(kept);
        assert(part.last() == TRUNCATED_BYTE);
        assert(seq![NULL_BYTE].last() == NULL_BYTE);
        assert forall|i: int| 0 <= i < part.len() implies (#[trigger] part[i]) < 0x80 && part[i]
            != DELIMITER_BYTE by {
            if i < part.len() - 1 {
                assert(part[i] == spec_percent_encode(kept)[i]);
                assert(spec_encoded_byte(spec_percent_encode(kept)[i]));
            }
        }
    }
}

/// Tells whether [`partition_key`] can render a key for these tags under
/// this template: whether every value is short enough to be hashed and
/// every bucket part asks for at least one bucket.
pub fn key_is_renderable(template: &TablePartitionTemplateOverride, tags: &Vec<(String, String)>) -> (renderable:
    bool)
    ensures
        renderable == (spec_row_hashable(spec_row(tags@)) && spec_buckets_nonzero(
            template.spec_parts(),
        )),
{
    let ghost row = spec_row(tags@);
    let mut i: usize = 0;
    while i < tags.len()
        invariant
            i <= tags@.len(),
            row == spec_row(tags@),
            forall|j: int| 0 <= j < i ==> encode_utf8((#[trigger] row[j]).1).len() <= u32::MAX,
        decreases tags@.len() - i,
    {
        if tags[i].1.as_str().as_bytes().len() > 0xFFFF_FFFF {
            assert(encode_utf8(row[i as int].1).len() > u32::MAX);
            return false;
        }
        i = i + 1;
    }
    let parts = template.parts();
    let ghost specs = template.spec_parts();
    let mut k: usize = 0;
    while k < parts.len()
        invariant
            k <= parts@.len(),
            specs == spec_part_views(parts@),
            specs == template.spec_parts(),
            spec_row_hashable(spec_row(tags@)),
            forall|j: int|
                0 <= j < k ==> (#[trigger] specs[j] matches PartSpec::Bucket(_, num_buckets)
                    ==> num_buckets > 0),
        decreases parts@.len() - k,
    {
        assert(specs[k as int] == parts@[k as int]@);
        match &parts[k] {
            TemplatePart::Bucket(_, num_buckets) => {
                if *num_buckets == 0 {
                    assert(specs[k as int] matches PartSpec::Bucket(_, n) && n == 0);
                    return false;
                }
            },
            _ => {},
        }
        k = k + 1;
    }
    true
}

/// The bytes of each key part of a list.
pub open spec fn spec_part_bytes(key_parts: Seq<Vec<u8>>) -> Seq<Seq<u8>> {
    Seq::new(key_parts.len(), |i: int| key_parts[i]@)
}

/// Joins key parts by the delimiter.
pub fn join_parts(key_parts: &Vec<Vec<u8>>) -> (key: Vec<u8>)
    ensures
        key@ == spec_join(spec_part_bytes(key_parts@)),
{
    let ghost all = spec_part_bytes(key_parts@);
    let mut out: Vec<u8> = Vec::new();
    let mut i: usize = 0;
    assert(all.take(0) =~= Seq::<Seq<u8>>::empty());
    while i < key_parts.len()
        invariant
            i <= key_parts@.len(),
            all == spec_part_bytes(key_parts@),
            out@ == spec_join(all.take(i as int)),
        decreases key_parts@.len() - i,
    {
        let ghost before = out@;
        let ghost part = key_parts@[i as int]@;
        proof {
            assert(all.take(i + 1) =~= all.take(i as int).push(part));
            if i > 0 {
                lemma_join_push(all.take(i as int), part);
            }
        }
        if i > 0 {
            out.push(DELIMITER_BYTE);
        }
        out.extend_from_slice(key_parts[i].as_slice());
        proof {
            if i == 0 {
                assert(before =~= Seq::<u8>::empty());
                assert(out@ =~= part);
                assert(all.take(1)[0] == part);
            } else {
                assert(out@ =~= before.push(DELIMITER_BYTE) + part);
            }
        }
        i = i + 1;
    }
    assert(all.take(i as int) =~= all);
    out
}

/// A key whose parts are valid UTF-8 is valid UTF-8.
pub proof fn lemma_join_utf8(key_parts: Seq<Seq<u8>>)
    requires
        forall|i: int| 0 <= i < key_parts.len() ==> valid_utf8(#[trigger] key_parts[i]),
    ensures
        valid_utf8(spec_join(key_parts)),
    decreases key_parts.len(),
{
    if key_parts.len() > 1 {
        let rest = key_parts.drop_first();
        assert forall|i: int| 0 <= i < rest.len() implies valid_utf8(#[trigger] rest[i]) by {
            assert(rest[i] == key_parts[i + 1]);
        }
        lemma_join_utf8(rest);
        let delimiter = seq![DELIMITER_BYTE];
        lemma_ascii_is_utf8(delimiter);
        assert(key_parts[0].push(DELIMITER_BYTE) =~= key_parts[0] + delimiter);
        valid_utf8_concat(key_parts[0], delimiter);
        valid_utf8_concat(key_parts[0].push(DELIMITER_BYTE), spec_join(rest));
    } else if key_parts.len() == 1 {
        assert(valid_utf8(key_parts[0]));
    }
}

/// Renders the partition key of a row: the timestamp `nanos`, in
/// nanoseconds since the Unix epoch, and the tag values `tags`.
///
/// Fails where a time format of the template does not render the timestamp.
pub fn partition_key(
    template: &TablePartitionTemplateOverride,
    nanos: i64,
    tags: &Vec<(String, String)>,
) -> (result: Result<String, PartitionKeyError>)
    requires
        spec_row_hashable(spec_row(tags@)),
        spec_buckets_nonzero(template.spec_parts()),
    ensures
        match result {
            Ok(key) => spec_renders(template.spec_parts(), nanos) && encode_utf8(key@)
                == spec_partition_key(template.spec_parts(), nanos, spec_row(tags@)),
            Err(_) => !spec_renders(template.spec_parts(), nanos),
        },
{
    let parts = template.parts();
    let ghost specs = template.spec_parts();
    let ghost row = spec_row(tags@);
    let ghost times = spec_rendered_times(specs, nanos);
    let ghost wanted = spec_key_parts(specs, row, times);
    let mut key_parts: Vec<Vec<u8>> = Vec::new();
    let mut i: usize = 0;
    while i < parts.len()
        invariant
            i <= parts@.len(),
            specs == spec_part_views(parts@),
            specs == template.spec_parts(),
            row == spec_row(tags@),
            times == spec_rendered_times(specs, nanos),
            wanted == spec_key_parts(specs, row, times),
            spec_row_hashable(row),
            spec_buckets_nonzero(specs),
            forall|j: int| 0 <= j < i ==> spec_rendered_time(#[trigger] specs[j], nanos) is Some,
            key_parts@.len() == i,
            forall|j: int| 0 <= j < i ==> (#[trigger] key_parts@[j])@ == wanted[j],
            forall|j: int| 0 <= j < i ==> valid_utf8(#[trigger] wanted[j]),
        decreases parts@.len() - i,
    {
        assert(specs[i as int] == parts@[i as int]@);
        let rendered = match render_part(&parts[i], nanos, tags) {
            Some(rendered) => rendered,
            None => {
                return Err(PartitionKeyError::InvalidStrftime);
            },
        };
        proof {
            assert(rendered@ == wanted[i as int]);
            lemma_key_part_utf8(specs[i as int], row, times[i as int], nanos);
        }
        key_parts.push(rendered);
        i = i + 1;
    }
    let key = join_parts(&key_parts);
    proof {
        assert(spec_part_bytes(key_parts@) =~= wanted);
        lemma_join_utf8(wanted);
    }
    match string_from_utf8(key) {
        Some(key) => Ok(key),
        None => Err(PartitionKeyError::InvalidStrftime),
    }
}

/// Every key part is valid UTF-8, given that the rendering of the timestamp
/// is the text of a string.
pub proof fn lemma_key_part_utf8(
    part: PartSpec,
    row: Seq<(Seq<char>, Seq<char>)>,
    rendered: Seq<u8>,
    nanos: i64,
)
    requires
        spec_rendered_time(part, nanos) == Some(rendered),
    ensures
        valid_utf8(spec_key_part(part, row, rendered)),
{
    let key_part = spec_key_part(part, row, rendered);
    match part {
        PartSpec::TagValue(name) => {
            match spec_lookup(row, name) {
                Some(text) => {
                    lemma_value_part_bytes(text);
                },
                None => {},
            }
            lemma_ascii_is_utf8(key_part);
        },
        PartSpec::TimeFormat(format) => {
            encode_utf8_valid_utf8(strftime_rendering(nanos, format)->0);
        },
        PartSpec::Bucket(name, num_buckets) => {
            match spec_lookup(row, name) {
                Some(text) => {
                    crate::partition_template::decimal::lemma_decimal_digits(
                        spec_bucket(encode_utf8(text), num_buckets) as nat,
                    );
                },
                None => {},
            }
            lemma_ascii_is_utf8(key_part);
        },
    }
}

} // verus!
