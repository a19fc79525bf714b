use iox_core::partition_template::bucket_for_tag_value;
use iox_core::partition_template::iceberg_hash;

#[test]
fn test_iceberg_string_hash() {
    assert_eq!(iceberg_hash("iceberg"), 1210000089);
}

#[test]
fn test_hash_bucket_fixture() {
    assert_eq!(bucket_for_tag_value("abcdefg", 5), 4);
    assert_eq!(bucket_for_tag_value("abc", 128), 122);
    assert_eq!(bucket_for_tag_value("abcde", 64), 54);
    assert_eq!(bucket_for_tag_value("测试", 12), 8);
    assert_eq!(bucket_for_tag_value("测试raul试测", 16), 1);
    assert_eq!(bucket_for_tag_value("", 16), 0);

    assert_eq!(bucket_for_tag_value("bananas", 10), 1);
    assert_eq!(bucket_for_tag_value("plátanos", 100), 98);
    assert_eq!(bucket_for_tag_value("crobhaing bananaí", 1000), 166);
    assert_eq!(bucket_for_tag_value("bread", 42), 9);
    assert_eq!(bucket_for_tag_value("arán", 76), 72);
    assert_eq!(bucket_for_tag_value("banana arán", 1337), 1284);
    assert_eq!(
        bucket_for_tag_value("uasmhéid bananaí", u32::MAX),
        1109892861
    );
}

#[test]
fn test_bucket_for_mod_doc() {
    assert_eq!(bucket_for_tag_value("ananas", 10), 5);
    assert_eq!(bucket_for_tag_value("!", 10), 8);
    assert_eq!(bucket_for_tag_value("%50", 10), 9);
    assert_eq!(bucket_for_tag_value("", 10), 0);
}
