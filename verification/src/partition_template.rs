//! Partition templates and the partition keys derived from them.
//!
//! A template is an ordered list of one to eight parts. A partition key holds
//! one part for each template part, joined by `|`: a percent-encoded tag
//! value, `!` for a missing value, `^` for the empty string, a timestamp
//! rendered through a strftime format, or a decimal bucket id. A value whose
//! encoding is longer than 200 bytes is cut short and ends in `#`.

pub mod bucket;
pub mod decimal;
pub mod decode;
pub mod encode;
pub mod footprint;
pub mod laws;
pub mod percent;
pub mod split;
pub mod strftime;
pub mod template;
pub mod time_range;
pub mod validation;

pub use bucket::bucket_for_tag_value;
pub use bucket::iceberg_hash;
pub use bucket::try_bucket_for_tag_value;
pub use decode::build_column;
pub use decode::build_column_values;
pub use decode::ColumnValue;
pub use decode::key_is_decodable;
pub use decode::part_is_decodable;
pub use decode::PARTITION_KEY_DELIMITER;
pub use decode::PARTITION_KEY_PART_TRUNCATED;
pub use decode::PARTITION_KEY_VALUE_EMPTY;
pub use decode::PARTITION_KEY_VALUE_EMPTY_STR;
pub use decode::PARTITION_KEY_VALUE_NULL;
pub use decode::PARTITION_KEY_VALUE_NULL_STR;
pub use decode::TIME_COLUMN_NAME;
pub use encode::key_is_renderable;
pub use encode::partition_key;
pub use encode::PARTITION_KEY_MAX_PART_LEN;
pub use encode::PartitionKeyError;
pub use template::NamespacePartitionTemplateOverride;
pub use template::TablePartitionTemplateOverride;
pub use template::TemplatePart;
pub use template::test_table_partition_override;
pub use time_range::Timestamp;
pub use validation::MAXIMUM_NUMBER_OF_TEMPLATE_PARTS;
pub use validation::TAG_VALUE_KEY_TIME;
pub use validation::ValidationError;
pub use validation::Wrapper;
