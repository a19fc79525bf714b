use chrono::TimeZone;
use chrono::Utc;
use iox_core::partition_template::build_column;
use iox_core::partition_template::build_column_values;
use iox_core::partition_template::part_is_decodable;
use iox_core::partition_template::key_is_decodable;
use iox_core::partition_template::test_table_partition_override;
use iox_core::partition_template::ColumnValue;
use iox_core::partition_template::TemplatePart;
use iox_core::partition_template::Timestamp;
use iox_core::partition_template::TIME_COLUMN_NAME;

fn identity(s: &str) -> ColumnValue {
    ColumnValue::Identity(s.into())
}

fn bucket(id: u32, num_buckets: u32) -> ColumnValue {
    ColumnValue::Bucket { id, num_buckets }
}

fn prefix(s: &str) -> ColumnValue {
    ColumnValue::Prefix(s.into())
}

fn instant(y: i32, m: u32, d: u32) -> Timestamp {
    let at = Utc.with_ymd_and_hms(y, m, d, 0, 0, 0).unwrap();
    Timestamp {
        secs: at.timestamp(),
        nanos: at.timestamp_subsec_nanos(),
    }
}

fn range(begin: (i32, u32, u32), end: (i32, u32, u32)) -> ColumnValue {
    ColumnValue::Datetime {
        begin: instant(begin.0, begin.1, begin.2),
        end: instant(end.0, end.1, end.2),
    }
}

fn year(y: i32) -> ColumnValue {
    range((y, 1, 1), (y + 1, 1, 1))
}

fn check(template: Vec<TemplatePart<'_>>, partition_key: &str, want: Vec<(&str, ColumnValue)>) {
    let template = test_table_partition_override(template);
    let input = String::from(partition_key);
    assert!(key_is_decodable(&template, input.as_str()));
    let got = build_column_values(&template, input.as_str());
    assert_eq!(got, want);
}

fn doc_template() -> Vec<TemplatePart<'static>> {
    vec![
        TemplatePart::TimeFormat("%Y"),
        TemplatePart::TagValue("a"),
        TemplatePart::TagValue("b"),
        TemplatePart::Bucket("c", 10),
    ]
}

#[test]
fn test_build_column_values_module_doc_example_1() {
    check(
        doc_template(),
        "2023|bananas|plátanos|5",
        vec![
            (TIME_COLUMN_NAME, year(2023)),
            ("a", identity("bananas")),
            ("b", identity("plátanos")),
            ("c", bucket(5, 10)),
        ],
    );
}

#[test]
fn test_build_column_values_module_doc_example_2() {
    check(
        doc_template(),
        "2023|!|plátanos|!",
        vec![(TIME_COLUMN_NAME, year(2023)), ("b", identity("plátanos"))],
    );
}

#[test]
fn test_build_column_values_module_doc_example_4() {
    check(doc_template(), "2023|!|!|!", vec![(TIME_COLUMN_NAME, year(2023))]);
}

#[test]
fn test_build_column_values_module_doc_example_5() {
    check(
        doc_template(),
        "2023|cat%7Cdog|%21|8",
        vec![
            (TIME_COLUMN_NAME, year(2023)),
            ("a", identity("cat|dog")),
            ("b", identity("!")),
            ("c", bucket(8, 10)),
        ],
    );
}

#[test]
fn test_build_column_values_module_doc_example_6() {
    check(
        doc_template(),
        "2023|%2550|!|9",
        vec![
            (TIME_COLUMN_NAME, year(2023)),
            ("a", identity("%50")),
            ("c", bucket(9, 10)),
        ],
    );
}

#[test]
fn test_build_column_values_module_doc_example_7() {
    check(
        doc_template(),
        "2023|^|!|0",
        vec![
            (TIME_COLUMN_NAME, year(2023)),
            ("a", identity("")),
            ("c", bucket(0, 10)),
        ],
    );
}

#[test]
fn test_build_column_values_module_doc_example_8() {
    check(
        doc_template(),
        "2023|BANANAS#|!|!|!",
        vec![(TIME_COLUMN_NAME, year(2023)), ("a", prefix("BANANAS"))],
    );
}

#[test]
fn truncated_value_of_four_part_key() {
    check(
        doc_template(),
        "2023|BANANAS#|!|!",
        vec![(TIME_COLUMN_NAME, year(2023)), ("a", prefix("BANANAS"))],
    );
}

#[test]
fn test_build_column_values_unicode_code_point_prefix() {
    check(
        doc_template(),
        "2023|%28%E3%83%8E%E0%B2%A0%E7%9B%8A%E0%B2%A0%29%E3%83%8E%E5%BD%A1%E2%94%BB%E2%94%81%E2%94%BB#|!|!",
        vec![
            (TIME_COLUMN_NAME, year(2023)),
            ("a", prefix("(ノಠ益ಠ)ノ彡┻━┻")),
        ],
    );
}

#[test]
fn test_build_column_values_unicode_grapheme() {
    check(
        vec![
            TemplatePart::TimeFormat("%Y"),
            TemplatePart::TagValue("a"),
            TemplatePart::TagValue("b"),
        ],
        "2023|%E0%AE%A8%E0%AE%BF#|!",
        vec![(TIME_COLUMN_NAME, year(2023)), ("a", prefix("நி"))],
    );
}

#[test]
fn test_build_column_values_unambiguous() {
    check(
        vec![
            TemplatePart::TimeFormat("%Y"),
            TemplatePart::TagValue("a"),
            TemplatePart::TagValue("b"),
        ],
        "2023|is%7Cnot%21ambiguous%2510%23|!",
        vec![
            (TIME_COLUMN_NAME, year(2023)),
            ("a", identity("is|not!ambiguous%10#")),
        ],
    );
}

#[test]
fn test_build_column_values_datetime_fixed() {
    check(vec![TemplatePart::TimeFormat("foo")], "foo", vec![]);
}

#[test]
fn test_build_column_values_datetime_null() {
    check(vec![TemplatePart::TimeFormat("%Y")], "!", vec![]);
}

#[test]
fn test_build_column_values_datetime_range_y() {
    check(
        vec![TemplatePart::TimeFormat("%Y")],
        "2023",
        vec![(TIME_COLUMN_NAME, range((2023, 1, 1), (2024, 1, 1)))],
    );
}

#[test]
fn test_build_column_values_datetime_range_y_m() {
    check(
        vec![TemplatePart::TimeFormat("%Y-%m")],
        "2023-09",
        vec![(TIME_COLUMN_NAME, range((2023, 9, 1), (2023, 10, 1)))],
    );
}

#[test]
fn test_build_column_values_datetime_range_y_m_overflow_year() {
    check(
        vec![TemplatePart::TimeFormat("%Y-%m")],
        "2023-12",
        vec![(TIME_COLUMN_NAME, range((2023, 12, 1), (2024, 1, 1)))],
    );
}

#[test]
fn test_build_column_values_datetime_range_y_m_d() {
    check(
        vec![TemplatePart::TimeFormat("%Y-%m-%d")],
        "2023-09-01",
        vec![(TIME_COLUMN_NAME, range((2023, 9, 1), (2023, 9, 2)))],
    );
}

#[test]
fn test_build_column_values_datetime_range_y_m_d_overflow_month() {
    check(
        vec![TemplatePart::TimeFormat("%Y-%m-%d")],
        "2023-09-30",
        vec![(TIME_COLUMN_NAME, range((2023, 9, 30), (2023, 10, 1)))],
    );
}

#[test]
fn test_build_column_values_datetime_range_y_m_d_overflow_year() {
    check(
        vec![TemplatePart::TimeFormat("%Y-%m-%d")],
        "2023-12-31",
        vec![(TIME_COLUMN_NAME, range((2023, 12, 31), (2024, 1, 1)))],
    );
}

#[test]
fn test_build_column_values_datetime_range_d_m_y() {
    check(
        vec![TemplatePart::TimeFormat("%d-%m-%Y")],
        "01-09-2023",
        vec![(TIME_COLUMN_NAME, range((2023, 9, 1), (2023, 9, 2)))],
    );
}

#[test]
fn test_build_column_values_bucket_part_fixture() {
    check(
        vec![
            TemplatePart::Bucket("a", 41),
            TemplatePart::Bucket("b", 91),
            TemplatePart::Bucket("c", 144),
        ],
        "1|2|3",
        vec![
            ("a", bucket(1, 41)),
            ("b", bucket(2, 91)),
            ("c", bucket(3, 144)),
        ],
    );
}

fn three_buckets() -> Vec<TemplatePart<'static>> {
    vec![
        TemplatePart::Bucket("a", 42),
        TemplatePart::Bucket("b", 42),
        TemplatePart::Bucket("c", 42),
    ]
}

#[test]
fn bucket_part_out_of_range_is_not_decodable() {
    let template = test_table_partition_override(three_buckets());
    assert!(!key_is_decodable(&template, "1|1|43"));
    assert!(!key_is_decodable(&template, "1|1|42"));
    assert!(key_is_decodable(&template, "1|1|41"));
}

#[test]
fn bucket_part_not_u32_is_not_decodable() {
    let template = test_table_partition_override(three_buckets());
    assert!(!key_is_decodable(&template, "1|1|bananas"));
    assert!(!key_is_decodable(&template, "1|1|"));
    assert!(!key_is_decodable(&template, "1|1|-1"));
    assert!(!key_is_decodable(&template, "1|1|4294967296"));
    assert!(!key_is_decodable(&template, "1|1|+"));
}

#[test]
fn bucket_id_may_carry_a_plus_sign_and_leading_zeros() {
    check(
        three_buckets(),
        "+1|007|0",
        vec![("a", bucket(1, 42)), ("b", bucket(7, 42)), ("c", bucket(0, 42))],
    );
}

#[test]
fn tag_value_that_is_not_utf8_is_not_decodable() {
    let template = test_table_partition_override(vec![TemplatePart::TagValue("a")]);
    assert!(!key_is_decodable(&template, "%FF"));
    assert!(!key_is_decodable(&template, "%E0%AE#"));
    assert!(key_is_decodable(&template, "%E0%AE%A8"));
}

#[test]
fn test_build_column_values_datetime_not_compact_y_d() {
    check(vec![TemplatePart::TimeFormat("%Y-%d")], "2023-01", vec![]);
}

#[test]
fn test_build_column_values_datetime_not_compact_m() {
    check(vec![TemplatePart::TimeFormat("%m")], "01", vec![]);
}

#[test]
fn test_build_column_values_datetime_not_compact_d() {
    check(vec![TemplatePart::TimeFormat("%d")], "01", vec![]);
}

#[test]
fn test_build_column_values_datetime_range_unimplemented_y_m_d_h() {
    check(
        vec![TemplatePart::TimeFormat("%Y-%m-%dT%H")],
        "2023-12-31T00",
        vec![],
    );
}

#[test]
fn test_build_column_values_datetime_range_unimplemented_y_m_d_h_m() {
    check(
        vec![TemplatePart::TimeFormat("%Y-%m-%dT%H:%M")],
        "2023-12-31T00:00",
        vec![],
    );
}

#[test]
fn test_build_column_values_datetime_range_unimplemented_y_m_d_h_m_s() {
    check(
        vec![TemplatePart::TimeFormat("%Y-%m-%dT%H:%M:%S")],
        "2023-12-31T00:00:00",
        vec![],
    );
}

#[test]
fn test_build_column_values_empty_tag_only() {
    check(vec![TemplatePart::TagValue("a")], "!", vec![]);
}

#[test]
fn time_part_that_does_not_parse_is_dropped() {
    check(
        vec![TemplatePart::TimeFormat("%Y-%m"), TemplatePart::TagValue("a")],
        "bananas|x",
        vec![("a", identity("x"))],
    );
}

#[test]
fn leap_day_range_ends_on_the_first_of_march() {
    check(
        vec![TemplatePart::TimeFormat("%Y-%m-%d")],
        "2024-02-29",
        vec![(TIME_COLUMN_NAME, range((2024, 2, 29), (2024, 3, 1)))],
    );
}

#[test]
fn key_with_fewer_parts_than_the_template_stops_early() {
    check(
        doc_template(),
        "2023|bananas",
        vec![(TIME_COLUMN_NAME, year(2023)), ("a", identity("bananas"))],
    );
}

#[test]
fn lone_truncation_marker_is_an_empty_prefix() {
    check(vec![TemplatePart::TagValue("a")], "#", vec![("a", prefix(""))]);
}

#[test]
fn decoding_twice_gives_the_same_columns() {
    let template = test_table_partition_override(doc_template());
    let key = "2023|cat%7Cdog|%21|8";
    assert!(key_is_decodable(&template, key));
    let first = build_column_values(&template, key);
    let second = build_column_values(&template, key);
    assert_eq!(first, second);
}

#[test]
fn test_column_value_partial_eq() {
    assert!(identity("bananas").eq_str("bananas"));

    assert!(!identity("bananas").eq_str("bananas2"));
    assert!(!identity("bananas2").eq_str("bananas"));

    assert!(!prefix("bananas").eq_str("bananas"));
    assert!(!prefix("bananas").eq_str("bananas2"));
    assert!(!prefix("bananas2").eq_str("bananas"));

    assert!(!bucket(1, 2).eq_str("1"));
    assert!(!year(2023).eq_str("2023"));
}

#[test]
fn test_column_value_is_prefix_match() {
    let b = "bananas".to_string();
    assert!(identity("bananas").is_prefix_match_of(b.as_bytes()));

    assert!(identity("bananas").is_prefix_match_of("bananas".as_bytes()));
    assert!(identity("bananas").is_prefix_match_of("bananas2".as_bytes()));

    assert!(prefix("bananas").is_prefix_match_of("bananas".as_bytes()));
    assert!(prefix("bananas").is_prefix_match_of("bananas2".as_bytes()));

    assert!(!identity("bananas2").is_prefix_match_of("bananas".as_bytes()));
    assert!(!prefix("bananas2").is_prefix_match_of("bananas".as_bytes()));

    assert!(!bucket(1, 2).is_prefix_match_of("1".as_bytes()));
    assert!(!year(2023).is_prefix_match_of("2023".as_bytes()));
}

#[test]
fn columns_are_read_part_by_part() {
    let tag = TemplatePart::TagValue("a");
    assert_eq!(build_column(&tag, "cat%7Cdog"), Some(("a", identity("cat|dog"))));
    assert_eq!(build_column(&tag, "x#"), Some(("a", prefix("x"))));
    assert_eq!(build_column(&tag, "^"), Some(("a", identity(""))));
    assert_eq!(build_column(&tag, "!"), None);

    let day = TemplatePart::TimeFormat("%Y-%m-%d");
    assert_eq!(
        build_column(&day, "2023-12-31"),
        Some((TIME_COLUMN_NAME, range((2023, 12, 31), (2024, 1, 1))))
    );
    assert_eq!(build_column(&day, "bananas"), None);
    assert_eq!(build_column(&day, "!"), None);

    let hashed = TemplatePart::Bucket("c", 10);
    assert!(part_is_decodable(&hashed, "9"));
    assert_eq!(build_column(&hashed, "9"), Some(("c", bucket(9, 10))));
    assert_eq!(build_column(&hashed, "!"), None);
    assert!(part_is_decodable(&hashed, "!"));
    assert!(!part_is_decodable(&hashed, "10"));
    assert!(!part_is_decodable(&tag, "%FF"));
}
