use iox_core::partition_template::NamespacePartitionTemplateOverride;
use iox_core::partition_template::TablePartitionTemplateOverride;
use iox_core::partition_template::TemplatePart;
use iox_core::partition_template::ValidationError;
use iox_core::partition_template::Wrapper;
use iox_core::partition_template::MAXIMUM_NUMBER_OF_TEMPLATE_PARTS;
use iox_core::partition_template::PARTITION_KEY_MAX_PART_LEN;
use iox_core::partition_template::PARTITION_KEY_VALUE_NULL;
use iox_core::partition_template::PARTITION_KEY_VALUE_NULL_STR;
use iox_core::proto;
use iox_core::proto::template_part::Part;

fn tag(name: &str) -> proto::TemplatePart {
    proto::TemplatePart {
        part: Some(Part::TagValue(name.into())),
    }
}

fn time(format: &str) -> proto::TemplatePart {
    proto::TemplatePart {
        part: Some(Part::TimeFormat(format.into())),
    }
}

fn bucket(name: &str, num_buckets: u32) -> proto::TemplatePart {
    proto::TemplatePart {
        part: Some(Part::Bucket(proto::Bucket {
            tag_name: name.into(),
            num_buckets,
        })),
    }
}

#[test]
fn test_max_partition_key_len() {
    let max_len: usize =
        // 8 parts, at most 200 bytes long.
        (MAXIMUM_NUMBER_OF_TEMPLATE_PARTS * PARTITION_KEY_MAX_PART_LEN)
        // 7 delimiting characters between parts.
        + (MAXIMUM_NUMBER_OF_TEMPLATE_PARTS - 1);

    assert_eq!(max_len, 1_607, "update module docs please");
}

#[test]
fn empty_parts_is_invalid() {
    let err = Wrapper::try_from(proto::PartitionTemplate { parts: vec![] });

    assert!(matches!(err, Err(ValidationError::NoParts)));
}

#[test]
fn more_than_8_parts_is_invalid() {
    let err = Wrapper::try_from(proto::PartitionTemplate {
        parts: vec![
            tag("region"),
            time("year-%Y"),
            tag("region"),
            time("year-%Y"),
            tag("region"),
            time("year-%Y"),
            tag("region"),
            time("year-%Y"),
            tag("region"),
        ],
    });

    assert!(matches!(err, Err(ValidationError::TooManyParts { specified }) if specified == 9));
}

#[test]
fn repeated_tag_name_value_is_invalid() {
    // Test [`TagValue`]
    let err = Wrapper::try_from(proto::PartitionTemplate {
        parts: vec![tag("bananas"), tag("bananas")],
    });

    assert!(
        matches!(err, Err(ValidationError::RepeatedTagValue(ref specified)) if specified == "bananas")
    );

    // Test [`Bucket`]
    let err = Wrapper::try_from(proto::PartitionTemplate {
        parts: vec![bucket("bananas", 42), bucket("bananas", 42)],
    });

    assert!(
        matches!(err, Err(ValidationError::RepeatedTagValue(ref specified)) if specified == "bananas")
    );

    // Test a combination of [`TagValue`] and [`Bucket`]
    let err = Wrapper::try_from(proto::PartitionTemplate {
        parts: vec![tag("bananas"), bucket("bananas", 42)],
    });

    assert!(
        matches!(err, Err(ValidationError::RepeatedTagValue(ref specified)) if specified == "bananas")
    );
}

#[test]
fn test_secret_formatter_advice_panic() {
    let err = Wrapper::try_from(proto::PartitionTemplate {
        parts: vec![time("%#z")],
    });

    assert!(matches!(err, Err(ValidationError::InvalidStrftime(_))));

    // The upper-case directive is malformed rather than forbidden.
    let err = Wrapper::try_from(proto::PartitionTemplate {
        parts: vec![time("%#Z")],
    });

    assert!(matches!(err, Err(ValidationError::InvalidStrftime(_))));
}

#[test]
fn forbidden_directive_is_named_in_the_error() {
    let err = Wrapper::try_from(proto::PartitionTemplate {
        parts: vec![time("%Y%#z")],
    });

    assert!(
        matches!(err, Err(ValidationError::InvalidStrftime(ref text)) if text == "%#z cannot be used")
    );

    let err = Wrapper::try_from(proto::PartitionTemplate {
        parts: vec![time("%#Z")],
    });

    assert!(matches!(err, Err(ValidationError::InvalidStrftime(ref text)) if text == "%#Z"));
}

#[test]
fn invalid_strftime_format_is_invalid() {
    let err = Wrapper::try_from(proto::PartitionTemplate {
        parts: vec![time("%3F")],
    });

    assert!(matches!(err, Err(ValidationError::InvalidStrftime(ref format)) if format == "%3F"));
}

#[test]
fn empty_strftime_format_is_invalid() {
    let err = Wrapper::try_from(proto::PartitionTemplate {
        parts: vec![time("")],
    });

    assert!(matches!(err, Err(ValidationError::InvalidStrftime(ref format)) if format.is_empty()));
}

#[test]
fn time_tag_value_is_invalid() {
    let err = Wrapper::try_from(proto::PartitionTemplate {
        parts: vec![tag("time")],
    });

    assert!(matches!(err, Err(ValidationError::InvalidTagValue(_))));
}

#[test]
fn name_holding_the_reserved_name_is_invalid() {
    let err = Wrapper::try_from(proto::PartitionTemplate {
        parts: vec![tag("uptime_total")],
    });

    assert!(
        matches!(err, Err(ValidationError::InvalidTagValue(ref text)) if text == "time cannot be used")
    );
}

#[test]
fn empty_tag_value_is_invalid() {
    let err = Wrapper::try_from(proto::PartitionTemplate {
        parts: vec![tag("")],
    });

    assert!(matches!(err, Err(ValidationError::InvalidTagValue(ref value)) if value.is_empty()));
}

#[test]
fn bucket_time_tag_name_is_invalid() {
    let err = Wrapper::try_from(proto::PartitionTemplate {
        parts: vec![bucket("time", 42)],
    });

    assert!(matches!(err, Err(ValidationError::InvalidTagValue(_))));
}

#[test]
fn bucket_empty_tag_name_is_invalid() {
    let err = Wrapper::try_from(proto::PartitionTemplate {
        parts: vec![bucket("", 42)],
    });

    assert!(matches!(err, Err(ValidationError::InvalidTagValue(ref value)) if value.is_empty()));
}

#[test]
fn bucket_zero_num_buckets_is_invalid() {
    let err = Wrapper::try_from(proto::PartitionTemplate {
        parts: vec![bucket("arán", 0)],
    });

    assert!(matches!(err, Err(ValidationError::InvalidNumberOfBuckets(0))));
}

#[test]
fn bucket_too_high_num_buckets_is_invalid() {
    const TOO_HIGH: u32 = 100_000;

    let err = Wrapper::try_from(proto::PartitionTemplate {
        parts: vec![bucket("arán", TOO_HIGH)],
    });

    assert!(matches!(err, Err(ValidationError::InvalidNumberOfBuckets(TOO_HIGH))));
}

#[test]
fn bucket_counts_at_the_edges_of_the_range_are_valid() {
    let ok = Wrapper::try_from(proto::PartitionTemplate {
        parts: vec![bucket("a", 1), bucket("b", 99_999)],
    });

    assert!(ok.is_ok());
}

#[test]
fn faults_rank_by_kind() {
    // A faulty time format ranks above a bucket count out of range,
    // whichever part comes first.
    let err = Wrapper::try_from(proto::PartitionTemplate {
        parts: vec![bucket("a", 0), time("")],
    });
    assert!(matches!(err, Err(ValidationError::InvalidStrftime(ref f)) if f.is_empty()));

    // A faulty time format ranks above a faulty name.
    let err = Wrapper::try_from(proto::PartitionTemplate {
        parts: vec![tag(""), time("%#z")],
    });
    assert!(matches!(err, Err(ValidationError::InvalidStrftime(_))));

    // An empty name ranks above the count of the same part.
    let err = Wrapper::try_from(proto::PartitionTemplate {
        parts: vec![bucket("", 0)],
    });
    assert!(matches!(err, Err(ValidationError::InvalidTagValue(_))));

    // An empty name ranks above a repeated name.
    let err = Wrapper::try_from(proto::PartitionTemplate {
        parts: vec![tag("a"), tag("a"), tag("")],
    });
    assert!(matches!(err, Err(ValidationError::InvalidTagValue(ref n)) if n.is_empty()));

    // A repeated name ranks above a bucket count out of range.
    let err = Wrapper::try_from(proto::PartitionTemplate {
        parts: vec![bucket("b", 0), tag("a"), bucket("a", 0)],
    });
    assert!(matches!(err, Err(ValidationError::RepeatedTagValue(ref n)) if n == "a"));
}

#[test]
fn earliest_fault_of_a_kind_is_reported() {
    let err = Wrapper::try_from(proto::PartitionTemplate {
        parts: vec![time("%Y"), time("%Q"), time("")],
    });
    assert!(matches!(err, Err(ValidationError::InvalidStrftime(ref f)) if f == "%Q"));

    let err = Wrapper::try_from(proto::PartitionTemplate {
        parts: vec![tag("a"), tag("b"), tag("b"), tag("a")],
    });
    assert!(matches!(err, Err(ValidationError::RepeatedTagValue(ref n)) if n == "b"));

    let err = Wrapper::try_from(proto::PartitionTemplate {
        parts: vec![bucket("a", 5), bucket("b", 100_000), bucket("c", 0)],
    });
    assert!(matches!(err, Err(ValidationError::InvalidNumberOfBuckets(100_000))));
}

#[test]
fn eight_parts_are_valid() {
    let ok = Wrapper::try_from(proto::PartitionTemplate {
        parts: vec![
            tag("a"),
            tag("b"),
            tag("c"),
            tag("d"),
            tag("e"),
            tag("f"),
            bucket("g", 10),
            time("%Y-%m-%d"),
        ],
    });

    assert!(ok.is_ok());
}

#[test]
fn unset_parts_are_passed_over() {
    let message = proto::PartitionTemplate {
        parts: vec![proto::TemplatePart { part: None }, tag("a")],
    };
    let template = TablePartitionTemplateOverride::try_new(
        Some(message),
        &NamespacePartitionTemplateOverride::default(),
    )
    .unwrap();

    assert_eq!(template.len(), 1);
    let got = template.parts();
    assert!(matches!(got.as_slice(), [TemplatePart::TagValue("a")]));
}

#[test]
fn test_null_partition_key_char_str_equality() {
    assert_eq!(
        PARTITION_KEY_VALUE_NULL.to_string(),
        PARTITION_KEY_VALUE_NULL_STR
    );
}

#[test]
fn test_default_template_fixture() {
    let ns = NamespacePartitionTemplateOverride::default();
    let table = TablePartitionTemplateOverride::try_new(None, &ns).unwrap();
    let got = table.parts();
    assert!(matches!(got.as_slice(), [TemplatePart::TimeFormat("%Y-%m-%d")]));
}

#[test]
fn len_of_default_template_is_1() {
    let ns = NamespacePartitionTemplateOverride::default();
    let t = TablePartitionTemplateOverride::try_new(None, &ns).unwrap();

    assert_eq!(t.len(), 1);
}

#[test]
fn const_default_has_no_override() {
    let ns = NamespacePartitionTemplateOverride::const_default();
    assert!(ns.as_proto().is_none());
}

#[test]
fn no_custom_table_template_specified_gets_namespace_template() {
    let namespace_template =
        NamespacePartitionTemplateOverride::try_from(proto::PartitionTemplate {
            parts: vec![time("year-%Y")],
        })
        .unwrap();
    let table_template =
        TablePartitionTemplateOverride::try_new(None, &namespace_template).unwrap();

    assert_eq!(table_template.len(), 1);
    assert_eq!(table_template.as_proto(), namespace_template.as_proto());
    assert!(table_template.as_proto().is_some());
}

#[test]
fn custom_table_template_specified_ignores_namespace_template() {
    let custom_table_template = proto::PartitionTemplate {
        parts: vec![tag("region")],
    };
    let namespace_template =
        NamespacePartitionTemplateOverride::try_from(proto::PartitionTemplate {
            parts: vec![time("year-%Y")],
        })
        .unwrap();
    let table_template = TablePartitionTemplateOverride::try_new(
        Some(custom_table_template.clone()),
        &namespace_template,
    )
    .unwrap();

    assert_eq!(table_template.len(), 1);
    assert_eq!(table_template.as_proto().unwrap(), &custom_table_template);
}

#[test]
fn invalid_custom_table_template_is_refused() {
    let err = TablePartitionTemplateOverride::try_new(
        Some(proto::PartitionTemplate { parts: vec![] }),
        &NamespacePartitionTemplateOverride::default(),
    );
    assert!(matches!(err, Err(ValidationError::NoParts)));

    let err = TablePartitionTemplateOverride::try_from(Some(proto::PartitionTemplate {
        parts: vec![tag("")],
    }));
    assert!(matches!(err, Err(ValidationError::InvalidTagValue(_))));

    let none = TablePartitionTemplateOverride::try_from(None).unwrap();
    assert!(none.as_proto().is_none());
}

#[test]
fn stored_template_is_taken_as_it_is() {
    // A store may hold what validation would refuse.
    let message = proto::PartitionTemplate {
        parts: vec![tag("time"), tag("time")],
    };
    let wrapper = Wrapper::from_stored(message.clone());
    assert_eq!(wrapper.inner(), &message);
    let table = TablePartitionTemplateOverride::from_stored(Some(wrapper.clone()));
    assert_eq!(table.as_proto(), Some(&message));
    assert_eq!(table.len(), 2);
    let namespace = NamespacePartitionTemplateOverride::from_stored(Some(wrapper));
    assert_eq!(namespace.as_proto(), Some(&message));
    assert!(TablePartitionTemplateOverride::from_stored(None)
        .as_proto()
        .is_none());
}
