use optics::decimal::{parse_u64, u64_to_decimal};
use optics::object_ref::{
    deserialize_obj_ref_value, format_obj_ref_value, parse_obj_ref_value, serialize_obj_ref_key,
    serialize_obj_ref_value,
};

fn chars(s: &str) -> Vec<char> {
    s.chars().collect()
}

#[test]
fn decimal_text_of_numbers() {
    assert_eq!(u64_to_decimal(0), "0");
    assert_eq!(u64_to_decimal(7), "7");
    assert_eq!(u64_to_decimal(10), "10");
    assert_eq!(u64_to_decimal(1700000000), "1700000000");
    assert_eq!(u64_to_decimal(u64::MAX), "18446744073709551615");
}

#[test]
fn parse_u64_follows_from_str() {
    let cases = [
        "0", "42", "+42", "007", "", "+", "-1", "4a", "18446744073709551615",
        "18446744073709551616", "99999999999999999999", " 1",
    ];
    for c in cases.iter() {
        let cs = chars(c);
        assert_eq!(parse_u64(&cs, 0, cs.len()), c.parse::<u64>().ok(), "case {:?}", c);
    }
}

#[test]
fn parse_u64_reads_a_range() {
    let cs = chars("a|123|b");
    assert_eq!(parse_u64(&cs, 2, 5), Some(123));
    assert_eq!(parse_u64(&cs, 1, 5), None);
}

#[test]
fn obj_ref_key_has_prefix() {
    assert_eq!(serialize_obj_ref_key("photos/cat.png"), "refs/photos/cat.png");
    assert_eq!(serialize_obj_ref_key(""), "refs/");
}

#[test]
fn obj_ref_value_with_time() {
    assert_eq!(
        serialize_obj_ref_value("/data/a.bin", 1700000000, "host1:7051"),
        "/data/a.bin|1700000000|host1:7051"
    );
    assert_eq!(format_obj_ref_value("p", 5, "a"), "p|5|a");
}

#[test]
fn obj_ref_value_stamps_current_time() {
    let v = serialize_obj_ref_value("/data/a.bin", 0, "host1:7051");
    let (path, t, addr) = deserialize_obj_ref_value(&v);
    assert_eq!(path, "/data/a.bin");
    assert_eq!(addr, "host1:7051");
    let now = std::time::SystemTime::now()
        .duration_since(std::time::UNIX_EPOCH)
        .unwrap()
        .as_secs();
    assert!(t > 0 && t <= now);
}

#[test]
fn obj_ref_value_roundtrip() {
    let v = serialize_obj_ref_value("/tmp/x y", 42, "10.0.0.1:7051");
    assert_eq!(
        deserialize_obj_ref_value(&v),
        ("/tmp/x y".to_string(), 42, "10.0.0.1:7051".to_string())
    );
}

#[test]
fn deserialize_ignores_extra_fields() {
    assert_eq!(
        deserialize_obj_ref_value("p|+9|a|rest"),
        ("p".to_string(), 9, "a".to_string())
    );
    assert_eq!(
        deserialize_obj_ref_value("|0|"),
        ("".to_string(), 0, "".to_string())
    );
}

#[test]
fn parse_rejects_malformed_values() {
    assert_eq!(parse_obj_ref_value(""), None);
    assert_eq!(parse_obj_ref_value("path-only"), None);
    assert_eq!(parse_obj_ref_value("p|12"), None);
    assert_eq!(parse_obj_ref_value("p|x|a"), None);
    assert_eq!(parse_obj_ref_value("p||a"), None);
    assert_eq!(parse_obj_ref_value("p|18446744073709551616|a"), None);
    assert_eq!(
        parse_obj_ref_value("p|18446744073709551615|a"),
        Some(("p".to_string(), u64::MAX, "a".to_string()))
    );
}

#[test]
fn unicode_fields_survive() {
    let v = serialize_obj_ref_value("/données/ü", 3, "hôte:1");
    assert_eq!(
        parse_obj_ref_value(&v),
        Some(("/données/ü".to_string(), 3, "hôte:1".to_string()))
    );
}

#[test]
fn decimal_text_reads_back() {
    for n in [0u64, 1, 9, 10, 99, 100, 12345, u64::MAX - 1, u64::MAX] {
        let text = u64_to_decimal(n);
        let cs = chars(&text);
        assert_eq!(parse_u64(&cs, 0, cs.len()), Some(n));
    }
}
