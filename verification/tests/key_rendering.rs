use iox_core::partition_template::build_column_values;
use iox_core::partition_template::encode::encode_key_part;
use iox_core::partition_template::encode::render_u32;
use iox_core::partition_template::key_is_decodable;
use iox_core::partition_template::partition_key;
use iox_core::partition_template::percent::percent_decode;
use iox_core::partition_template::percent::percent_encode;
use iox_core::partition_template::test_table_partition_override;
use iox_core::partition_template::ColumnValue;
use iox_core::partition_template::NamespacePartitionTemplateOverride;
use iox_core::partition_template::PartitionKeyError;
use iox_core::partition_template::TablePartitionTemplateOverride;
use iox_core::partition_template::TemplatePart;

// 2023-01-01T00:00:00Z in nanoseconds since the epoch.
const FIRST_OF_2023: i64 = 1_672_531_200_000_000_000;

fn doc_template() -> TablePartitionTemplateOverride {
    test_table_partition_override(vec![
        TemplatePart::TimeFormat("%Y"),
        TemplatePart::TagValue("a"),
        TemplatePart::TagValue("b"),
        TemplatePart::Bucket("c", 10),
    ])
}

fn row(pairs: &[(&str, &str)]) -> Vec<(String, String)> {
    pairs
        .iter()
        .map(|(k, v)| (k.to_string(), v.to_string()))
        .collect()
}

fn key(pairs: &[(&str, &str)]) -> String {
    partition_key(&doc_template(), FIRST_OF_2023, &row(pairs)).unwrap()
}

#[test]
fn module_doc_keys() {
    assert_eq!(
        key(&[("a", "bananas"), ("b", "plátanos"), ("c", "ananas")]),
        "2023|bananas|pl%C3%A1tanos|5"
    );
    assert_eq!(key(&[("b", "plátanos")]), "2023|!|pl%C3%A1tanos|!");
    assert_eq!(
        key(&[("another", "cat"), ("b", "plátanos")]),
        "2023|!|pl%C3%A1tanos|!"
    );
    assert_eq!(key(&[]), "2023|!|!|!");
    assert_eq!(
        key(&[("a", "cat|dog"), ("b", "!"), ("c", "!")]),
        "2023|cat%7Cdog|%21|8"
    );
    assert_eq!(key(&[("a", "%50"), ("c", "%50")]), "2023|%2550|!|9");
    assert_eq!(key(&[("a", ""), ("c", "")]), "2023|^|!|0");
}

#[test]
fn default_template_renders_the_day() {
    let template = TablePartitionTemplateOverride::try_new(
        None,
        &NamespacePartitionTemplateOverride::default(),
    )
    .unwrap();
    assert_eq!(
        partition_key(&template, FIRST_OF_2023, &row(&[("a", "x")])).unwrap(),
        "2023-01-01"
    );
    // One nanosecond before 2023 is still 2022, in UTC.
    assert_eq!(
        partition_key(&template, FIRST_OF_2023 - 1, &row(&[])).unwrap(),
        "2022-12-31"
    );
}

#[test]
fn format_that_does_not_render_is_an_error() {
    let template = test_table_partition_override(vec![TemplatePart::TimeFormat("%Q")]);
    assert_eq!(
        partition_key(&template, FIRST_OF_2023, &row(&[])),
        Err(PartitionKeyError::InvalidStrftime)
    );
}

#[test]
fn reserved_and_control_and_non_ascii_bytes_are_encoded() {
    assert_eq!(encode_key_part("|!^#%"), b"%7C%21%5E%23%25".to_vec());
    assert_eq!(encode_key_part("a\tb\u{7f}"), b"a%09b%7F".to_vec());
    assert_eq!(encode_key_part("é"), b"%C3%A9".to_vec());
    assert_eq!(encode_key_part("plain text~"), b"plain text~".to_vec());
    assert_eq!(encode_key_part(""), b"^".to_vec());
}

#[test]
fn percent_coding_round_trip() {
    let all: Vec<u8> = (0..=255u8).collect();
    let encoded = percent_encode(&all);
    assert!(encoded.iter().all(|b| (0x20..0x7f).contains(b)));
    assert!(!encoded.iter().any(|b| b"|!^#".contains(b)));
    assert_eq!(percent_decode(&encoded), all);
    // Lower-case digits decode too; a lone or malformed escape stays.
    assert_eq!(percent_decode(b"%7c%2"), b"|%2".to_vec());
    assert_eq!(percent_decode(b"%zz%"), b"%zz%".to_vec());
}

#[test]
fn value_of_exactly_200_bytes_is_kept_whole() {
    let value = "a".repeat(200);
    assert_eq!(encode_key_part(&value), value.as_bytes().to_vec());
}

#[test]
fn value_of_201_bytes_is_cut_to_199_and_marked() {
    let value = "a".repeat(201);
    let want = format!("{}#", "a".repeat(199));
    assert_eq!(encode_key_part(&value), want.into_bytes());
}

#[test]
fn truncation_does_not_split_an_escape() {
    // 70 delimiters encode to 210 bytes; 66 escapes are 198 bytes, and the
    // 67th would reach 201.
    let value = "|".repeat(70);
    let want = format!("{}#", "%7C".repeat(66));
    let got = encode_key_part(&value);
    assert_eq!(got, want.into_bytes());
    assert!(got.len() <= 200);
}

#[test]
fn truncation_does_not_split_a_grapheme_cluster() {
    // Each cluster is two code points of three bytes, 18 bytes encoded.
    // Eleven clusters are 198 bytes; a twelfth does not fit.
    let cluster = "நி";
    assert_eq!(cluster.len(), 6);
    let value = cluster.repeat(12);
    let want = format!("{}#", "%E0%AE%A8%E0%AE%BF".repeat(11));
    assert_eq!(encode_key_part(&value), want.into_bytes());

    // With one byte in front the eleventh cluster would end at byte 199,
    // which still fits.
    let value = format!("a{}", cluster.repeat(12));
    let want = format!("a{}#", "%E0%AE%A8%E0%AE%BF".repeat(11));
    assert_eq!(encode_key_part(&value), want.into_bytes());

    // With two bytes in front it would end at byte 200, which does not.
    let value = format!("ab{}", cluster.repeat(12));
    let want = format!("ab{}#", "%E0%AE%A8%E0%AE%BF".repeat(10));
    assert_eq!(encode_key_part(&value), want.into_bytes());
}

#[test]
fn bucket_ids_are_written_in_decimal() {
    assert_eq!(render_u32(0), b"0".to_vec());
    assert_eq!(render_u32(7), b"7".to_vec());
    assert_eq!(render_u32(10), b"10".to_vec());
    assert_eq!(render_u32(99_999), b"99999".to_vec());
    assert_eq!(render_u32(u32::MAX), b"4294967295".to_vec());
}

fn tag_column<'a>(columns: &'a [(&str, ColumnValue)], name: &str) -> &'a ColumnValue {
    &columns.iter().find(|(n, _)| *n == name).unwrap().1
}

#[test]
fn tag_values_survive_the_round_trip() {
    let template = doc_template();
    let long = "┻━┻".repeat(40);
    let rows = vec![
        row(&[("a", "bananas"), ("b", "plátanos"), ("c", "ananas")]),
        row(&[("a", "cat|dog"), ("b", "!"), ("c", "!")]),
        row(&[("a", "^"), ("b", "#")]),
        row(&[("a", ""), ("b", "100%")]),
        row(&[("a", long.as_str()), ("b", "x")]),
    ];
    for tags in rows {
        let key = partition_key(&template, FIRST_OF_2023, &tags).unwrap();
        assert_eq!(key.matches('|').count(), 3);
        assert!(key.len() <= 1607);
        assert!(key_is_decodable(&template, &key));
        let columns = build_column_values(&template, &key);
        for (name, value) in &tags {
            if name == "c" {
                continue;
            }
            match tag_column(&columns, name) {
                ColumnValue::Identity(got) => assert_eq!(got, value),
                ColumnValue::Prefix(got) => {
                    assert!(value.as_bytes().starts_with(got.as_bytes()));
                    assert!(got.len() < value.len());
                }
                other => panic!("unexpected column value {other:?}"),
            }
        }
    }
}

#[test]
fn long_value_comes_back_as_a_prefix() {
    let template = doc_template();
    let value = "a".repeat(300);
    let key = partition_key(&template, FIRST_OF_2023, &row(&[("a", &value)])).unwrap();
    let columns = build_column_values(&template, &key);
    assert_eq!(
        tag_column(&columns, "a"),
        &ColumnValue::Prefix("a".repeat(199))
    );
}

#[test]
fn bucket_id_survives_the_round_trip() {
    let template = doc_template();
    let key = partition_key(&template, FIRST_OF_2023, &row(&[("c", "ananas")])).unwrap();
    let columns = build_column_values(&template, &key);
    assert_eq!(
        tag_column(&columns, "c"),
        &ColumnValue::Bucket { id: 5, num_buckets: 10 }
    );
}

#[test]
fn literal_delimiter_in_a_time_format_adds_a_delimiter() {
    let template = test_table_partition_override(vec![
        TemplatePart::TimeFormat("%Y|%m"),
        TemplatePart::TagValue("a"),
    ]);
    let key = partition_key(&template, FIRST_OF_2023, &row(&[("a", "x")])).unwrap();
    assert_eq!(key, "2023|01|x");
    assert_eq!(key.matches('|').count(), 2);
}
