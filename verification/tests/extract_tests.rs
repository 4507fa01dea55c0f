use submillisecond::errors::ErrorKind;
use submillisecond::extract::Path;
use submillisecond::shape::{Decoded, ElemType, PrimValue, Target};
use submillisecond::store::CaptureStore;

fn store_of(pairs: &[(&str, &str)]) -> CaptureStore {
    let mut s = CaptureStore::new();
    for (k, v) in pairs {
        s.insert(k.to_string(), v.to_string());
    }
    s
}

fn extract_kind(store: &CaptureStore, target: &Target) -> ErrorKind {
    match Path::from_captures(store, target) {
        Ok(_) => panic!("extraction unexpectedly succeeded"),
        Err(e) => e.into_kind(),
    }
}

#[test]
fn scalar_round_trip() {
    let store = store_of(&[("id", "42")]);
    let target = Target::Scalar(ElemType::U64);
    match Path::from_captures(&store, &target) {
        Ok(Path(Decoded::Scalar(PrimValue::U64(v)))) => assert_eq!(v, 42),
        other => panic!("unexpected outcome: {:?}", other),
    }
}

#[test]
fn scalar_text_value() {
    let store = store_of(&[("name", "alice")]);
    let target = Target::Scalar(ElemType::Text);
    match Path::from_captures(&store, &target) {
        Ok(Path(Decoded::Scalar(PrimValue::Text(v)))) => assert_eq!(v, "alice"),
        other => panic!("unexpected outcome: {:?}", other),
    }
}

fn two_field_record() -> Target {
    Target::Record(vec![
        ("user_id".to_string(), ElemType::U64),
        ("team_id".to_string(), ElemType::U64),
    ])
}

fn record_fields(store: &CaptureStore) -> Vec<(String, u64)> {
    match Path::from_captures(store, &two_field_record()) {
        Ok(Path(Decoded::Record(kvs))) => kvs
            .into_iter()
            .map(|(k, v)| match v {
                PrimValue::U64(n) => (k, n),
                other => panic!("unexpected primitive: {:?}", other),
            })
            .collect(),
        other => panic!("unexpected outcome: {:?}", other),
    }
}

#[test]
fn named_record_matches_by_name() {
    let store = store_of(&[("user_id", "1"), ("team_id", "2")]);
    assert_eq!(
        record_fields(&store),
        vec![("user_id".to_string(), 1), ("team_id".to_string(), 2)]
    );
}

#[test]
fn named_record_independent_of_insertion_order() {
    let forwards = store_of(&[("user_id", "1"), ("team_id", "2")]);
    let backwards = store_of(&[("team_id", "2"), ("user_id", "1")]);
    assert_eq!(record_fields(&forwards), record_fields(&backwards));
}

#[test]
fn sequence_in_store_order() {
    let store = store_of(&[("user_id", "7"), ("team_id", "9")]);
    let target = Target::Sequence(vec![ElemType::U64, ElemType::U64]);
    match Path::from_captures(&store, &target) {
        Ok(Path(Decoded::Sequence(vals))) => match vals.as_slice() {
            [PrimValue::U64(a), PrimValue::U64(b)] => {
                assert_eq!(*a, 7);
                assert_eq!(*b, 9);
            }
            other => panic!("unexpected values: {:?}", other),
        },
        other => panic!("unexpected outcome: {:?}", other),
    }
}

#[test]
fn sequence_arity_mismatch() {
    let store = store_of(&[("id", "42")]);
    let target = Target::Sequence(vec![ElemType::U64, ElemType::U64]);
    match extract_kind(&store, &target) {
        ErrorKind::WrongNumberOfParameters { got, expected } => {
            assert_eq!(got, 1);
            assert_eq!(expected, 2);
        }
        other => panic!("unexpected kind: {:?}", other),
    }
}

#[test]
fn scalar_arity_mismatch() {
    let store = store_of(&[("a", "1"), ("b", "2")]);
    match extract_kind(&store, &Target::Scalar(ElemType::U64)) {
        ErrorKind::WrongNumberOfParameters { got, expected } => {
            assert_eq!(got, 2);
            assert_eq!(expected, 1);
        }
        other => panic!("unexpected kind: {:?}", other),
    }
}

#[test]
fn invalid_utf8_short_circuits() {
    let store = store_of(&[("id", "%FF")]);
    match extract_kind(&store, &Target::Scalar(ElemType::Text)) {
        ErrorKind::InvalidUtf8InPathParam { key } => assert_eq!(key, "id"),
        other => panic!("unexpected kind: {:?}", other),
    }
}

#[test]
fn nested_map_is_unsupported() {
    let store = store_of(&[("a", "1")]);
    let target = Target::KeyedMap(ElemType::Unsupported {
        name: "HashMap<String, HashMap<String, String>>".to_string(),
    });
    match extract_kind(&store, &target) {
        ErrorKind::UnsupportedType { name } => {
            assert_eq!(name, "HashMap<String, HashMap<String, String>>")
        }
        other => panic!("unexpected kind: {:?}", other),
    }
}

#[test]
fn percent_decoding_applies_to_values() {
    let store = store_of(&[("q", "hello%20world")]);
    match Path::from_captures(&store, &Target::Scalar(ElemType::Text)) {
        Ok(Path(Decoded::Scalar(PrimValue::Text(v)))) => assert_eq!(v, "hello world"),
        other => panic!("unexpected outcome: {:?}", other),
    }
}

#[test]
fn percent_decoding_multibyte_utf8() {
    let store = store_of(&[("q", "%E4%B8%AD")]);
    match Path::from_captures(&store, &Target::Scalar(ElemType::Text)) {
        Ok(Path(Decoded::Scalar(PrimValue::Text(v)))) => assert_eq!(v, "\u{4e2d}"),
        other => panic!("unexpected outcome: {:?}", other),
    }
}

#[test]
fn stray_percent_passes_through() {
    let store = store_of(&[("q", "100%zz%")]);
    match Path::from_captures(&store, &Target::Scalar(ElemType::Text)) {
        Ok(Path(Decoded::Scalar(PrimValue::Text(v)))) => assert_eq!(v, "100%zz%"),
        other => panic!("unexpected outcome: {:?}", other),
    }
}

#[test]
fn scalar_parse_error() {
    let store = store_of(&[("id", "abc")]);
    match extract_kind(&store, &Target::Scalar(ElemType::U64)) {
        ErrorKind::ParseError {
            value,
            expected_type,
        } => {
            assert_eq!(value, "abc");
            assert_eq!(expected_type, "u64");
        }
        other => panic!("unexpected kind: {:?}", other),
    }
}

#[test]
fn sequence_parse_error_carries_index() {
    let store = store_of(&[("a", "1"), ("b", "x")]);
    let target = Target::Sequence(vec![ElemType::U64, ElemType::U64]);
    match extract_kind(&store, &target) {
        ErrorKind::ParseErrorAtIndex {
            index,
            value,
            expected_type,
        } => {
            assert_eq!(index, 1);
            assert_eq!(value, "x");
            assert_eq!(expected_type, "u64");
        }
        other => panic!("unexpected kind: {:?}", other),
    }
}

#[test]
fn record_parse_error_carries_key() {
    let store = store_of(&[("user_id", "x"), ("team_id", "2")]);
    match extract_kind(&store, &two_field_record()) {
        ErrorKind::ParseErrorAtKey {
            key,
            value,
            expected_type,
        } => {
            assert_eq!(key, "user_id");
            assert_eq!(value, "x");
            assert_eq!(expected_type, "u64");
        }
        other => panic!("unexpected kind: {:?}", other),
    }
}

#[test]
fn record_missing_field_is_message() {
    let store = store_of(&[("user_id", "1"), ("group_id", "2")]);
    match extract_kind(&store, &two_field_record()) {
        ErrorKind::Message(text) => assert_eq!(text, "missing field `team_id`"),
        other => panic!("unexpected kind: {:?}", other),
    }
}

#[test]
fn keyed_map_accepts_any_arity() {
    let store = store_of(&[("a", "1"), ("b", "2"), ("c", "3")]);
    let target = Target::KeyedMap(ElemType::U64);
    match Path::from_captures(&store, &target) {
        Ok(Path(Decoded::KeyedMap(kvs))) => {
            let got: Vec<(String, u64)> = kvs
                .into_iter()
                .map(|(k, v)| match v {
                    PrimValue::U64(n) => (k, n),
                    other => panic!("unexpected primitive: {:?}", other),
                })
                .collect();
            assert_eq!(
                got,
                vec![
                    ("a".to_string(), 1),
                    ("b".to_string(), 2),
                    ("c".to_string(), 3)
                ]
            );
        }
        other => panic!("unexpected outcome: {:?}", other),
    }

    let empty = CaptureStore::new();
    match Path::from_captures(&empty, &Target::KeyedMap(ElemType::Text)) {
        Ok(Path(Decoded::KeyedMap(kvs))) => assert!(kvs.is_empty()),
        other => panic!("unexpected outcome: {:?}", other),
    }
}

#[test]
fn u64_bounds() {
    let max = store_of(&[("id", "18446744073709551615")]);
    match Path::from_captures(&max, &Target::Scalar(ElemType::U64)) {
        Ok(Path(Decoded::Scalar(PrimValue::U64(v)))) => assert_eq!(v, u64::MAX),
        other => panic!("unexpected outcome: {:?}", other),
    }

    let over = store_of(&[("id", "18446744073709551616")]);
    match extract_kind(&over, &Target::Scalar(ElemType::U64)) {
        ErrorKind::ParseError { value, .. } => assert_eq!(value, "18446744073709551616"),
        other => panic!("unexpected kind: {:?}", other),
    }

    let zeros = store_of(&[("id", "007")]);
    match Path::from_captures(&zeros, &Target::Scalar(ElemType::U64)) {
        Ok(Path(Decoded::Scalar(PrimValue::U64(v)))) => assert_eq!(v, 7),
        other => panic!("unexpected outcome: {:?}", other),
    }

    let empty_value = store_of(&[("id", "")]);
    match extract_kind(&empty_value, &Target::Scalar(ElemType::U64)) {
        ErrorKind::ParseError { value, .. } => assert_eq!(value, ""),
        other => panic!("unexpected kind: {:?}", other),
    }
}
