use iox_core::partition_template::encode::join_parts;
use iox_core::partition_template::encode::lookup_tag;
use iox_core::partition_template::encode::truncate_value;
use iox_core::partition_template::validation::check_format;
use iox_core::partition_template::validation::format_error;
use iox_core::partition_template::split::find_byte;
use iox_core::partition_template::split::split_key;
use iox_core::partition_template::time_range::earlier;
use iox_core::partition_template::time_range::nearer_end;
use iox_core::partition_template::time_range::parsed_implicit_defaults;
use iox_core::partition_template::time_range::range_end;
use iox_core::partition_template::time_range::time_range;
use iox_core::partition_template::time_range::ParsedFields;
use iox_core::partition_template::time_range::TimeItem;
use iox_core::partition_template::Timestamp;
use iox_core::partition_template::ValidationError;

const DAY: i64 = 86_400;
// 2023-01-01T00:00:00Z and 2024-01-01T00:00:00Z in seconds since the epoch.
const FIRST_OF_2023: i64 = 1_672_531_200;
const FIRST_OF_2024: i64 = 1_704_067_200;

fn at(secs: i64) -> Timestamp {
    Timestamp { secs, nanos: 0 }
}

fn none() -> ParsedFields {
    ParsedFields {
        year: None,
        month: None,
        day: None,
        hour_div_12: None,
        hour_mod_12: None,
        minute: None,
        second: None,
        nanosecond: None,
    }
}

#[test]
fn format_error_for_each_outcome() {
    assert!(format_error("%Y", true).is_ok());
    assert!(
        matches!(format_error("%Y", false), Err(ValidationError::InvalidStrftime(ref f)) if f == "%Y")
    );
    assert!(
        matches!(format_error("", true), Err(ValidationError::InvalidStrftime(ref f)) if f.is_empty())
    );
    assert!(
        matches!(format_error("a%#zb", true), Err(ValidationError::InvalidStrftime(ref f)) if f == "%#z cannot be used")
    );
    assert!(
        matches!(format_error("a%#zb", false), Err(ValidationError::InvalidStrftime(ref f)) if f == "%#z cannot be used")
    );
}

#[test]
fn formats_that_render_and_formats_that_do_not() {
    assert!(check_format("%Y-%m-%d").is_ok());
    assert!(check_format("year-%Y").is_ok());
    assert!(check_format("%Y-%m-%dT%H:%M:%S%.f %z %A").is_ok());
    assert!(check_format("no directive").is_ok());
    assert!(check_format("%").is_err());
    assert!(check_format("%Q").is_err());
    assert!(check_format("%3F").is_err());
}

#[test]
fn implicit_defaults_fill_what_may_be_left_out() {
    let year_only = ParsedFields {
        year: Some(2023),
        ..none()
    };
    let filled = ParsedFields {
        year: Some(2023),
        month: Some(1),
        day: Some(1),
        hour_div_12: Some(0),
        hour_mod_12: Some(0),
        minute: Some(0),
        second: None,
        nanosecond: None,
    };
    assert_eq!(parsed_implicit_defaults(year_only), Some(filled));

    let to_the_minute = ParsedFields {
        year: Some(2023),
        month: Some(9),
        day: Some(30),
        hour_div_12: Some(1),
        hour_mod_12: Some(11),
        minute: Some(59),
        second: Some(58),
        nanosecond: Some(7),
    };
    assert_eq!(parsed_implicit_defaults(to_the_minute), Some(to_the_minute));

    let year_month = ParsedFields {
        year: Some(2023),
        month: Some(9),
        ..none()
    };
    assert_eq!(
        parsed_implicit_defaults(year_month),
        Some(ParsedFields {
            month: Some(9),
            ..filled
        })
    );
}

#[test]
fn implicit_defaults_refuse_gaps() {
    let cases = [
        none(),
        ParsedFields {
            month: Some(1),
            ..none()
        },
        ParsedFields {
            year: Some(2023),
            day: Some(1),
            ..none()
        },
        ParsedFields {
            year: Some(2023),
            month: Some(1),
            hour_div_12: Some(0),
            hour_mod_12: Some(0),
            ..none()
        },
        ParsedFields {
            year: Some(2023),
            month: Some(1),
            hour_mod_12: Some(0),
            ..none()
        },
        ParsedFields {
            year: Some(2023),
            month: Some(1),
            day: Some(1),
            hour_div_12: Some(0),
            ..none()
        },
        ParsedFields {
            year: Some(2023),
            month: Some(1),
            day: Some(1),
            hour_mod_12: Some(0),
            ..none()
        },
        ParsedFields {
            year: Some(2023),
            month: Some(1),
            day: Some(1),
            minute: Some(0),
            ..none()
        },
        ParsedFields {
            year: Some(2023),
            month: Some(1),
            day: Some(1),
            hour_div_12: Some(0),
            hour_mod_12: Some(0),
            second: Some(0),
            ..none()
        },
        ParsedFields {
            year: Some(2023),
            nanosecond: Some(0),
            ..none()
        },
    ];
    for parsed in cases {
        assert_eq!(parsed_implicit_defaults(parsed), None, "{parsed:?}");
    }
}

#[test]
fn range_end_takes_the_smallest_step() {
    let begin = at(FIRST_OF_2023);
    let year = Some(at(FIRST_OF_2024));
    let month = Some(at(FIRST_OF_2023 + 31 * DAY));
    let day = Some(at(FIRST_OF_2023 + DAY));
    assert_eq!(range_end(begin, &vec![TimeItem::Year]), year);
    assert_eq!(range_end(begin, &vec![TimeItem::Literal, TimeItem::Year, TimeItem::Space]), year);
    assert_eq!(range_end(begin, &vec![TimeItem::Year, TimeItem::Literal, TimeItem::Month]), month);
    assert_eq!(range_end(begin, &vec![TimeItem::Month, TimeItem::Year]), month);
    assert_eq!(range_end(begin, &vec![TimeItem::Day, TimeItem::Month, TimeItem::Year]), day);
    assert_eq!(range_end(begin, &vec![TimeItem::Year, TimeItem::Month, TimeItem::Day]), day);
    assert_eq!(range_end(begin, &vec![TimeItem::Month]), month);
    assert_eq!(range_end(begin, &vec![TimeItem::Day]), day);
}

#[test]
fn range_end_is_none_without_a_supported_field() {
    let begin = at(FIRST_OF_2023);
    assert_eq!(range_end(begin, &vec![]), None);
    assert_eq!(range_end(begin, &vec![TimeItem::Literal, TimeItem::Space]), None);
    assert_eq!(range_end(begin, &vec![TimeItem::Year, TimeItem::OtherNumeric]), None);
    assert_eq!(range_end(begin, &vec![TimeItem::Fixed, TimeItem::Year]), None);
    assert_eq!(range_end(begin, &vec![TimeItem::Year, TimeItem::Error]), None);
}

#[test]
fn month_step_is_clamped_to_the_end_of_the_month() {
    // 2023-01-31 plus one month is 2023-02-28.
    let begin = at(FIRST_OF_2023 + 30 * DAY);
    assert_eq!(
        range_end(begin, &vec![TimeItem::Month]),
        Some(at(FIRST_OF_2023 + 58 * DAY))
    );
}

#[test]
fn step_that_leaves_the_calendar_gives_no_range() {
    assert_eq!(time_range("+262142", "%Y"), None);
    assert_eq!(
        time_range("+262141", "%Y").map(|(begin, end)| earlier(begin, end)),
        Some(true)
    );
}

#[test]
fn nearer_end_keeps_the_earlier_instant() {
    let a = Timestamp { secs: 5, nanos: 1 };
    let b = Timestamp { secs: 5, nanos: 2 };
    let c = Timestamp { secs: -6, nanos: 9 };
    assert_eq!(nearer_end(None, a), a);
    assert_eq!(nearer_end(Some(a), b), a);
    assert_eq!(nearer_end(Some(b), a), a);
    assert_eq!(nearer_end(Some(a), a), a);
    assert_eq!(nearer_end(Some(a), c), c);
    assert!(earlier(a, b));
    assert!(!earlier(b, a));
    assert!(!earlier(a, a));
    assert!(earlier(c, a));
}

#[test]
fn truncation_keeps_only_clusters_that_the_value_holds() {
    assert_eq!(truncate_value("abc", &vec!["a", "b", "c"]), b"abc#".to_vec());
    assert_eq!(truncate_value("abc", &vec!["a", "x", "c"]), b"a#".to_vec());
    assert_eq!(truncate_value("abc", &vec!["abcd"]), b"#".to_vec());
    assert_eq!(truncate_value("abc", &vec![]), b"#".to_vec());
    assert_eq!(truncate_value("a|c", &vec!["a|", "c"]), b"a%7Cc#".to_vec());
    let long = "x".repeat(300);
    let clusters = vec!["x"; 300];
    assert_eq!(
        truncate_value(&long, &clusters),
        format!("{}#", "x".repeat(199)).into_bytes()
    );
    // One cluster that is too long by itself leaves nothing.
    assert_eq!(truncate_value(&long, &vec![long.as_str()]), b"#".to_vec());
}

#[test]
fn key_parts_are_joined_by_the_delimiter() {
    assert_eq!(join_parts(&vec![]), b"".to_vec());
    assert_eq!(join_parts(&vec![b"a".to_vec()]), b"a".to_vec());
    assert_eq!(
        join_parts(&vec![b"a".to_vec(), b"".to_vec(), b"c|d".to_vec()]),
        b"a||c|d".to_vec()
    );
}

#[test]
fn keys_are_split_at_every_delimiter() {
    assert_eq!(split_key(""), vec![""]);
    assert_eq!(split_key("a"), vec!["a"]);
    assert_eq!(split_key("a|b"), vec!["a", "b"]);
    assert_eq!(split_key("|"), vec!["", ""]);
    assert_eq!(split_key("a||é|"), vec!["a", "", "é", ""]);
    assert_eq!(find_byte(b"abc", b'c'), 2);
    assert_eq!(find_byte(b"abc", b'x'), 3);
    assert_eq!(find_byte(b"", b'x'), 0);
}

#[test]
fn first_pair_with_the_name_is_looked_up() {
    let tags = vec![
        ("a".to_string(), "1".to_string()),
        ("b".to_string(), "2".to_string()),
        ("a".to_string(), "3".to_string()),
    ];
    assert_eq!(lookup_tag(&tags, "a"), Some("1"));
    assert_eq!(lookup_tag(&tags, "b"), Some("2"));
    assert_eq!(lookup_tag(&tags, "c"), None);
    assert_eq!(lookup_tag(&vec![], "a"), None);
}
