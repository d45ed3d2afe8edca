use hexin::sysfs::{parse_cache_size, parse_cpu_list, parse_node_name, parse_sysfs_value, table_field};

#[test]
fn test_parse_cpu_list() {
    assert_eq!(parse_cpu_list("0-3"), Some(vec![0, 1, 2, 3]));
    assert_eq!(parse_cpu_list("0,2,4"), Some(vec![0, 2, 4]));
    assert_eq!(parse_cpu_list("0-1,4-5"), Some(vec![0, 1, 4, 5]));
}

#[test]
fn test_parse_cache_size() {
    assert_eq!(parse_cache_size("32768K"), 32768);
    assert_eq!(parse_cache_size("32M"), 32768);
    assert_eq!(parse_cache_size("96M"), 98304);
}

#[test]
fn cpu_list_of_empty_text_is_empty() {
    assert_eq!(parse_cpu_list(""), Some(vec![]));
    assert_eq!(parse_cpu_list("   \n"), Some(vec![]));
    assert_eq!(parse_cpu_list(",,"), Some(vec![]));
}

#[test]
fn cpu_list_ignores_whitespace_around_tokens() {
    assert_eq!(parse_cpu_list(" 1 , 2 "), Some(vec![1, 2]));
    assert_eq!(parse_cpu_list("0-3\n"), Some(vec![0, 1, 2, 3]));
    assert_eq!(parse_cpu_list("\t7\u{3000}"), Some(vec![7]));
    assert_eq!(parse_cpu_list("0-1,,4"), Some(vec![0, 1, 4]));
}

#[test]
fn cpu_list_single_element_range() {
    assert_eq!(parse_cpu_list("5-5"), Some(vec![5]));
}

#[test]
fn cpu_list_descending_range_is_empty() {
    assert_eq!(parse_cpu_list("3-1"), Some(vec![]));
    assert_eq!(parse_cpu_list("3-1,8"), Some(vec![8]));
}

#[test]
fn cpu_list_with_a_second_dash_is_none() {
    assert_eq!(parse_cpu_list("1-2-3"), None);
    assert_eq!(parse_cpu_list("1-3-5"), None);
    assert_eq!(parse_cpu_list("1--3"), None);
    assert_eq!(parse_cpu_list("1-3-"), None);
    assert_eq!(parse_cpu_list("0-1,2-3-4,5"), None);
}

#[test]
fn cpu_list_accepts_a_plus_sign() {
    assert_eq!(parse_cpu_list("+1-+3"), Some(vec![1, 2, 3]));
    assert_eq!(parse_cpu_list("+4"), Some(vec![4]));
}

#[test]
fn cpu_list_accepts_leading_zeros() {
    assert_eq!(parse_cpu_list("007"), Some(vec![7]));
}

#[test]
fn cpu_list_with_a_malformed_token_is_none() {
    assert_eq!(parse_cpu_list("a"), None);
    assert_eq!(parse_cpu_list("0-3,x"), None);
    assert_eq!(parse_cpu_list("a-2"), None);
    assert_eq!(parse_cpu_list("4-"), None);
    assert_eq!(parse_cpu_list("1-"), None);
    assert_eq!(parse_cpu_list("-1"), None);
    assert_eq!(parse_cpu_list("1,x"), None);
    assert_eq!(parse_cpu_list("x,1"), None);
    assert_eq!(parse_cpu_list("1 2"), None);
    assert_eq!(parse_cpu_list("1- 2"), None);
    assert_eq!(parse_cpu_list("+"), None);
    assert_eq!(parse_cpu_list("1.5"), None);
    assert_eq!(parse_cpu_list("99999999999999999999999"), None);
}

#[test]
fn cpu_list_of_a_joined_text_concatenates() {
    let left = "0-2, 9";
    let right = "4,6-7";
    let mut expected = parse_cpu_list(left).unwrap();
    expected.extend(parse_cpu_list(right).unwrap());
    let joined = format!("{},{}", left, right);
    assert_eq!(parse_cpu_list(&joined), Some(expected));
    assert_eq!(parse_cpu_list(&joined), Some(vec![0, 1, 2, 9, 4, 6, 7]));
    assert_eq!(parse_cpu_list(&format!("{},{}", left, "oops")), None);
}

#[test]
fn cpu_list_matches_every_small_range() {
    for a in 0..12usize {
        for b in 0..12usize {
            let text = format!("{}-{}", a, b);
            let expected: Vec<usize> = (a..=b).collect();
            assert_eq!(parse_cpu_list(&text), Some(expected));
        }
    }
}

#[test]
fn cache_size_without_suffix_is_kb() {
    assert_eq!(parse_cache_size("32768"), 32768);
    assert_eq!(parse_cache_size("98304"), 98304);
    assert_eq!(parse_cache_size("0"), 0);
}

#[test]
fn cache_size_suffix_in_either_case() {
    assert_eq!(parse_cache_size("32768k"), 32768);
    assert_eq!(parse_cache_size("32m"), 32768);
    assert_eq!(parse_cache_size("1M"), 1024);
}

#[test]
fn cache_size_is_trimmed() {
    assert_eq!(parse_cache_size(" 32M \n"), 32768);
    assert_eq!(parse_cache_size("512K\n"), 512);
}

#[test]
fn cache_size_of_unparsable_text_is_zero() {
    assert_eq!(parse_cache_size(""), 0);
    assert_eq!(parse_cache_size("abc"), 0);
    assert_eq!(parse_cache_size("K"), 0);
    assert_eq!(parse_cache_size("M"), 0);
    assert_eq!(parse_cache_size("32 K"), 0);
    assert_eq!(parse_cache_size("32G"), 0);
    assert_eq!(parse_cache_size("-32K"), 0);
    assert_eq!(parse_cache_size("3.5M"), 0);
    assert_eq!(parse_cache_size("32KB"), 0);
}

#[test]
fn cache_size_at_the_limit_of_64_bits() {
    assert_eq!(parse_cache_size("18446744073709551615"), u64::MAX);
    assert_eq!(parse_cache_size("18446744073709551616"), 0);
    assert_eq!(parse_cache_size("18014398509481983M"), 18014398509481983 * 1024);
    assert_eq!(parse_cache_size("18014398509481984M"), 0);
}

#[test]
fn sysfs_value_is_trimmed_and_bounded() {
    assert_eq!(parse_sysfs_value(" 42\n", u64::MAX), Some(42));
    assert_eq!(parse_sysfs_value("+5", u64::MAX), Some(5));
    assert_eq!(parse_sysfs_value("4294967295", u32::MAX as u64), Some(4294967295));
    assert_eq!(parse_sysfs_value("4294967296", u32::MAX as u64), None);
    assert_eq!(parse_sysfs_value("-5", u64::MAX), None);
    assert_eq!(parse_sysfs_value("", u64::MAX), None);
    assert_eq!(parse_sysfs_value("12 34", u64::MAX), None);
    assert_eq!(parse_sysfs_value("0x10", u64::MAX), None);
}

#[test]
fn table_field_finds_trimmed_key_and_value() {
    let text = "processor\t: 0\nvendor_id\t: AuthenticAMD\nmodel name\t: AMD Ryzen 9 7950X3D 16-Core Processor\n\nflags\t\t: fpu vme\n";
    assert_eq!(table_field(text, "vendor_id"), Some("AuthenticAMD".to_string()));
    assert_eq!(
        table_field(text, "model name"),
        Some("AMD Ryzen 9 7950X3D 16-Core Processor".to_string())
    );
    assert_eq!(table_field(text, "processor"), Some("0".to_string()));
    assert_eq!(table_field(text, "missing"), None);
}

#[test]
fn table_field_takes_the_last_entry_of_a_key() {
    let text = "processor : 0\nname : first\nprocessor : 1\nname : second";
    assert_eq!(table_field(text, "processor"), Some("1".to_string()));
    assert_eq!(table_field(text, "name"), Some("second".to_string()));
}

#[test]
fn table_field_splits_at_the_first_colon() {
    assert_eq!(table_field("a: b: c", "a"), Some("b: c".to_string()));
    assert_eq!(table_field("key:", "key"), Some(String::new()));
    assert_eq!(table_field(": value", ""), Some("value".to_string()));
}

#[test]
fn table_field_skips_lines_without_a_colon() {
    assert_eq!(table_field("vendor_id\nvendor_id : x\nnoise", "vendor_id"), Some("x".to_string()));
    assert_eq!(table_field("", "vendor_id"), None);
    assert_eq!(table_field("vendor_id", "vendor_id"), None);
}

#[test]
fn table_field_handles_carriage_returns() {
    assert_eq!(table_field("a : 1\r\nb : 2\r\n", "b"), Some("2".to_string()));
}

#[test]
fn node_name_holds_the_node_number() {
    assert_eq!(parse_node_name("node0"), Some(0));
    assert_eq!(parse_node_name("node12"), Some(12));
    assert_eq!(parse_node_name("node007"), Some(7));
    assert_eq!(parse_node_name("node"), None);
    assert_eq!(parse_node_name("nodex"), None);
    assert_eq!(parse_node_name("cpu0"), None);
    assert_eq!(parse_node_name("no"), None);
    assert_eq!(parse_node_name("Node1"), None);
    assert_eq!(parse_node_name("node1 "), None);
    assert_eq!(parse_node_name("has_cpu"), None);
}
