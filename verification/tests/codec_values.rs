use fixed_revision::codec::{decode_record, decode_value, encode_record, encode_value};
use fixed_revision::Value;

fn encoded(v: &Value) -> Vec<u8> {
    let mut out = Vec::new();
    encode_value(v, &mut out);
    out
}

#[test]
fn value_encodings_roundtrip() {
    let values = vec![
        Value::Unit,
        Value::Bool(false),
        Value::Bool(true),
        Value::U64(0),
        Value::U64(u64::MAX),
        Value::I64(-1),
        Value::I64(i64::MIN),
        Value::Text(String::new()),
        Value::Text(String::from("schema evolution")),
        Value::Text(String::from("päivää")),
        Value::Bytes(vec![]),
        Value::Bytes(vec![0, 255, 1, 254]),
    ];
    for v in &values {
        let bytes = encoded(v);
        let (decoded, consumed) = decode_value(&bytes, 0).unwrap();
        assert_eq!(&decoded, v);
        assert_eq!(consumed, bytes.len());
    }
}

#[test]
fn value_encodings_are_fixed() {
    assert_eq!(encoded(&Value::Unit), vec![0]);
    assert_eq!(encoded(&Value::Bool(true)), vec![1, 1]);
    assert_eq!(
        encoded(&Value::U64(0x0102)),
        vec![2, 0x02, 0x01, 0, 0, 0, 0, 0, 0]
    );
    assert_eq!(
        encoded(&Value::I64(-2)),
        vec![3, 0xfe, 0xff, 0xff, 0xff, 0xff, 0xff, 0xff, 0xff]
    );
    assert_eq!(
        encoded(&Value::Text(String::from("ab"))),
        vec![4, 2, 0, 0, 0, 0, 0, 0, 0, b'a', b'b']
    );
    assert_eq!(
        encoded(&Value::Bytes(vec![9])),
        vec![5, 1, 0, 0, 0, 0, 0, 0, 0, 9]
    );
}

#[test]
fn malformed_values_are_refused() {
    // An unknown tag byte.
    assert!(decode_value(&vec![7], 0).is_none());
    // A boolean byte that is neither 0 nor 1.
    assert!(decode_value(&vec![1, 2], 0).is_none());
    // Truncated integers and lengths.
    assert!(decode_value(&vec![2, 1, 2, 3], 0).is_none());
    assert!(decode_value(&vec![4, 5, 0, 0, 0, 0, 0, 0, 0, b'a'], 0).is_none());
    // A text chunk that is not UTF-8.
    let mut bad_text = encoded(&Value::Text(String::from("ä")));
    let n = bad_text.len();
    bad_text[n - 1] = 0xff;
    assert!(decode_value(&bad_text, 0).is_none());
    // The same bytes as a byte string are fine.
    let mut as_bytes = bad_text.clone();
    as_bytes[0] = 5;
    let (decoded, _) = decode_value(&as_bytes, 0).unwrap();
    assert_eq!(decoded, Value::Bytes(vec![0xc3, 0xff]));
    // Nothing at all.
    assert!(decode_value(&vec![], 0).is_none());
}

#[test]
fn records_concatenate_values() {
    let record = vec![Value::U64(1), Value::Text(String::from("x")), Value::Unit];
    let mut bytes = Vec::new();
    encode_record(&record, &mut bytes);
    let (decoded, consumed) = decode_record(&bytes, 0, 3).unwrap();
    assert_eq!(decoded, record);
    assert_eq!(consumed, bytes.len());
    // Asking for more values than the bytes hold fails.
    assert!(decode_record(&bytes, 0, 4).is_none());
    // Asking for fewer consumes less.
    let (prefix, consumed) = decode_record(&bytes, 0, 1).unwrap();
    assert_eq!(prefix, vec![Value::U64(1)]);
    assert_eq!(consumed, 9);
}
