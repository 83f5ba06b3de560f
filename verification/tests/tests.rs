use prometheus_labels::{to_string, to_vec, Field, FieldValue, TopValue, Unexpected};

fn record(fields: Vec<Field>) -> TopValue {
    TopValue::Record(fields)
}

fn field(key: &str, value: FieldValue) -> Field {
    Field { key: key.to_string(), value }
}

fn text(key: &str, value: &str) -> Field {
    field(key, FieldValue::Text(value.to_string()))
}

#[test]
fn invalid_key() {
    let labels = record(vec![text("_🦾", "prosthetics")]);

    let err = to_string(&labels).unwrap_err();

    assert_eq!(err.to_string(), r#"invalid key ("_🦾")"#);
}

#[test]
fn escapes() {
    let labels = record(vec![text("field", "slash: \\, newline: \n, quote: \"")]);

    let serialized = to_string(&labels).unwrap();

    assert_eq!(serialized, r#"field="slash: \\, newline: \n, quote: \"""#);
}

#[test]
fn method_and_path() {
    let labels = record(vec![
        field("method", FieldValue::UnitVariant("GET".to_string())),
        text("path", "/metrics"),
    ]);

    assert_eq!(to_string(&labels).unwrap(), r#"method="GET",path="/metrics""#);
}

#[test]
fn scalar_kinds() {
    let mut ryu_buf = ryu::Buffer::new();
    let ratio = ryu_buf.format(0.5f64);
    let labels = record(vec![
        field("flag", FieldValue::Bool(true)),
        field("count", FieldValue::Unsigned(42)),
        field("ratio", FieldValue::Float(ratio.to_string())),
    ]);

    assert_eq!(
        to_string(&labels).unwrap(),
        r#"flag="true",count="42",ratio="0.5""#
    );
}

#[test]
fn absent_field_is_skipped() {
    let labels = record(vec![field("first", FieldValue::Absent), text("second", "x")]);

    assert_eq!(to_string(&labels).unwrap(), r#"second="x""#);
}

#[test]
fn empty_record_is_empty_string() {
    assert_eq!(to_string(&record(vec![])).unwrap(), "");
}

#[test]
fn all_invisible_fields_are_empty_string() {
    let labels = record(vec![
        field("a", FieldValue::Absent),
        field("b", FieldValue::Wrapped(Box::new(FieldValue::Absent))),
    ]);

    assert_eq!(to_string(&labels).unwrap(), "");
}

#[test]
fn empty_top_level_is_empty_string() {
    assert_eq!(to_string(&TopValue::Empty).unwrap(), "");
}

#[test]
fn comma_count_matches_visible_fields() {
    let labels = record(vec![
        text("a", "1"),
        field("b", FieldValue::Absent),
        text("c", "2"),
        text("d", "3"),
    ]);

    let serialized = to_string(&labels).unwrap();

    assert_eq!(serialized, r#"a="1",c="2",d="3""#);
    assert_eq!(serialized.matches(',').count(), 2);
    assert!(!serialized.starts_with(','));
    assert!(!serialized.ends_with(','));
}

#[test]
fn valid_key_shapes_are_accepted() {
    let labels = record(vec![
        text("simple", "a"),
        text("_leading_underscore", "b"),
        text(":leading_colon", "c"),
        text("with_digits_09", "d"),
        text("UPPER:lower_7", "e"),
    ]);

    assert!(to_string(&labels).is_ok());
}

#[test]
fn empty_key_is_rejected() {
    let err = to_string(&record(vec![text("", "v")])).unwrap_err();

    assert_eq!(err.to_string(), r#"invalid key ("")"#);
}

#[test]
fn leading_digit_key_is_rejected() {
    let err = to_string(&record(vec![text("9lives", "v")])).unwrap_err();

    assert_eq!(err.to_string(), r#"invalid key ("9lives")"#);
}

#[test]
fn embedded_space_key_is_rejected() {
    let err = to_string(&record(vec![text("a b", "v")])).unwrap_err();

    assert_eq!(err.to_string(), r#"invalid key ("a b")"#);
}

#[test]
fn key_check_is_fail_fast() {
    let labels = record(vec![
        text("ok", "1"),
        text("not ok", "2"),
        field("later", FieldValue::Unsupported(Unexpected::Str)),
    ]);

    let err = to_string(&labels).unwrap_err();

    assert_eq!(err.to_string(), r#"invalid key ("not ok")"#);
}

#[test]
fn unsupported_top_level_is_rejected() {
    let err = to_string(&TopValue::Unsupported(Unexpected::Str)).unwrap_err();

    assert_eq!(err.to_string(), "unsupported string at top-level");
}

#[test]
fn unsupported_value_names_key_and_shape() {
    let labels = record(vec![field(
        "sizes",
        FieldValue::Unsupported(Unexpected::Mapping(Some(3))),
    )]);

    let err = to_string(&labels).unwrap_err();

    assert_eq!(
        err.to_string(),
        "unsupported value at key sizes (map of len 3)"
    );
}

#[test]
fn invalid_utf8_bytes_are_rejected() {
    let labels = record(vec![field("data", FieldValue::Bytes(vec![0xff, 0xfe]))]);

    let err = to_string(&labels).unwrap_err();

    assert_eq!(err.to_string(), "invalid UTF-8 at key data");
}

#[test]
fn valid_utf8_bytes_become_text() {
    let labels = record(vec![field(
        "data",
        FieldValue::Bytes("héllo \"x\"".as_bytes().to_vec()),
    )]);

    assert_eq!(to_string(&labels).unwrap(), r#"data="héllo \"x\"""#);
}

#[test]
fn char_values_are_escaped() {
    let labels = record(vec![
        field("plain", FieldValue::Char('α')),
        field("newline", FieldValue::Char('\n')),
        field("quote", FieldValue::Char('"')),
        field("backslash", FieldValue::Char('\\')),
    ]);

    assert_eq!(
        to_string(&labels).unwrap(),
        "plain=\"α\",newline=\"\\n\",quote=\"\\\"\",backslash=\"\\\\\""
    );
}

#[test]
fn integer_extremes() {
    let labels = record(vec![
        field("umax", FieldValue::Unsigned(u128::MAX)),
        field("imin", FieldValue::Signed(i128::MIN)),
        field("zero", FieldValue::Unsigned(0)),
        field("negative", FieldValue::Signed(-7)),
    ]);

    let expected = "umax=\"340282366920938463463374607431768211455\",\
                    imin=\"-170141183460469231731687303715884105728\",\
                    zero=\"0\",negative=\"-7\"";
    assert_eq!(to_string(&labels).unwrap(), expected);
}

#[test]
fn wrapped_values_are_transparent() {
    let labels = record(vec![field(
        "inner",
        FieldValue::Wrapped(Box::new(FieldValue::Wrapped(Box::new(FieldValue::Text(
            "x".to_string(),
        ))))),
    )]);

    assert_eq!(to_string(&labels).unwrap(), r#"inner="x""#);
}

#[test]
fn wrapped_top_level_is_transparent() {
    let labels = TopValue::Wrapped(Box::new(record(vec![text("k", "v")])));

    assert_eq!(to_string(&labels).unwrap(), r#"k="v""#);
}

#[test]
fn unit_variant_names_are_escaped_text() {
    let labels = record(vec![field(
        "case",
        FieldValue::UnitVariant("a\"b".to_string()),
    )]);

    assert_eq!(to_string(&labels).unwrap(), r#"case="a\"b""#);
}

#[test]
fn duplicate_keys_are_not_rechecked() {
    let labels = record(vec![text("k", "1"), text("k", "2")]);

    assert_eq!(to_string(&labels).unwrap(), r#"k="1",k="2""#);
}

#[test]
fn to_vec_matches_to_string() {
    let labels = record(vec![text("path", "/metrics")]);

    assert_eq!(to_vec(&labels).unwrap(), br#"path="/metrics""#);
}

#[test]
fn to_vec_propagates_errors() {
    let err = to_vec(&record(vec![text("", "v")])).unwrap_err();

    assert_eq!(err.to_string(), r#"invalid key ("")"#);
}

fn split_labels(serialized: &str) -> Vec<(String, String)> {
    let mut pairs = Vec::new();
    let mut rest = serialized;
    while !rest.is_empty() {
        let eq = rest.find('=').expect("a field has a `=`");
        let key = &rest[..eq];
        let quoted = &rest[eq + 1..];
        assert!(quoted.starts_with('"'));
        let mut value = String::new();
        let mut chars = quoted[1..].chars();
        loop {
            match chars.next().expect("a closing quote") {
                '"' => break,
                '\\' => match chars.next().expect("an escaped character") {
                    'n' => value.push('\n'),
                    other => value.push(other),
                },
                other => value.push(other),
            }
        }
        pairs.push((key.to_string(), value));
        rest = chars.as_str();
        if let Some(stripped) = rest.strip_prefix(',') {
            rest = stripped;
        } else {
            assert!(rest.is_empty());
        }
    }
    pairs
}

#[test]
fn round_trip_of_keys_and_values() {
    let pairs = [
        ("plain", "value"),
        ("tricky", "a=\"b\",c\\d\ne"),
        ("empty", ""),
    ];
    let labels = record(pairs.iter().map(|(k, v)| text(k, v)).collect());

    let serialized = to_string(&labels).unwrap();
    let split = split_labels(&serialized);

    assert_eq!(
        split,
        pairs
            .iter()
            .map(|(k, v)| (k.to_string(), v.to_string()))
            .collect::<Vec<_>>()
    );
}
