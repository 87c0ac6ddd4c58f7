use mock_server::helpers::json_value_text;
use mock_server::helpers::value_at_offset;
use mock_server::helpers::{
    default_value, format_uuid, lower_value, random_value, upper_value, uuid_value, ParamValue,
};

fn uuid_shaped(s: &str) -> bool {
    let c: Vec<char> = s.chars().collect();
    if c.len() != 36 {
        return false;
    }
    for (i, ch) in c.iter().enumerate() {
        let ok = match i {
            8 | 13 | 18 | 23 => *ch == '-',
            _ => ch.is_ascii_digit() || ('a'..='f').contains(ch),
        };
        if !ok {
            return false;
        }
    }
    c[14] == '4' && "89ab".contains(c[19])
}

#[test]
fn upper_and_lower() {
    assert_eq!(upper_value("John"), "JOHN");
    assert_eq!(lower_value("John"), "john");
    assert_eq!(upper_value("ümlaut-x"), "üMLAUT-X");
    assert_eq!(upper_value(&upper_value("MiXeD 1")), upper_value("MiXeD 1"));
    assert_eq!(lower_value(&lower_value("MiXeD 1")), lower_value("MiXeD 1"));
}

#[test]
fn default_helper_values() {
    assert_eq!(default_value(&ParamValue::Missing, "default_value"), "default_value");
    assert_eq!(default_value(&ParamValue::Null, "d"), "d");
    assert_eq!(default_value(&ParamValue::Str(String::new()), "d"), "d");
    assert_eq!(default_value(&ParamValue::Str("present".to_string()), "d"), "present");
    assert_eq!(default_value(&ParamValue::Other("42".to_string()), "d"), "42");
}

#[test]
fn uuid_values_are_version_four() {
    for _ in 0..20 {
        let u = uuid_value();
        assert!(uuid_shaped(&u), "{}", u);
    }
    assert_eq!(
        format_uuid(0xdeadbeef, 0x1234, 0xffff, 0x0000, u64::MAX),
        "deadbeef-1234-4fff-8000-ffffffffffff"
    );
    assert_eq!(format_uuid(0, 0, 0, 0xffff, 0), "00000000-0000-4000-bfff-000000000000");
}

#[test]
fn random_helper_range() {
    for _ in 0..20 {
        let v = random_value(None, None).unwrap();
        assert!((0..=100).contains(&v));
    }
    assert_eq!(random_value(Some(7), Some(7)), Some(7));
    assert_eq!(random_value(Some(5), Some(1)), None);
    let v = random_value(Some(i64::MIN), Some(i64::MAX));
    assert!(v.is_some());
}

#[test]
fn json_helper_value() {
    assert_eq!(json_value_text("{\"a\":1}"), "{\n  \"a\": 1\n}");
    assert_eq!(json_value_text("not json"), "not json");
}

#[test]
fn random_offsets() {
    assert_eq!(value_at_offset(-5, 5, 0), -5);
    assert_eq!(value_at_offset(-5, 5, 10), 5);
    assert_eq!(value_at_offset(i64::MIN, i64::MAX, u64::MAX), i64::MAX);
}
