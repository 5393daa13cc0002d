use everything::content::{
    row_exists, ConstDecodedRow, ConstValue, DecodedRow, Row, Schema, Value,
};
use everything::ids::ObjectId;
use everything::istr::InlineStr;
use everything::inline::{InlineBytes, InlineStr as InlineText};
use everything::values::{DecodedValue, Value as CoreValue};

fn id(n: u64) -> ObjectId {
    ObjectId::new(n).unwrap()
}

#[test]
fn const_rows_round_trip() {
    let rows = [
        ConstDecodedRow::Association(id(3), id(4), ConstValue::Unit),
        ConstDecodedRow::Association(id(3), id(4), ConstValue::ObjectReference(id(77))),
        ConstDecodedRow::FreeListNextFreeIndex(id(12)),
        ConstDecodedRow::FreeListEnd,
    ];
    for row in rows {
        let encoded = Row::const_encode(row);
        assert_eq!(encoded.decode(), Ok(row.const_into_decoded_row()));
    }
}

#[test]
fn const_encode_words() {
    assert_eq!(Row::const_encode(ConstDecodedRow::FreeListEnd), Row([0, 0, 0, 0]));
    assert_eq!(Row::const_encode(ConstDecodedRow::FreeListNextFreeIndex(id(5))), Row([0, 5, 0, 0]));
    assert_eq!(
        Row::const_encode(ConstDecodedRow::Association(id(1), id(2), ConstValue::ObjectReference(id(9)))),
        Row([1, 2, 9, 9])
    );
    assert_eq!(
        Row::const_encode(ConstDecodedRow::Association(id(1), id(2), ConstValue::Schema(Schema::Text))),
        Row([1, 2, 13 | (16 << 8), 0])
    );
    assert_eq!(
        Row::const_encode(ConstDecodedRow::Association(
            id(1),
            id(2),
            ConstValue::Schema(Schema::ObjectReference(Some(id(40))))
        )),
        Row([1, 2, 13 | (9 << 8), 40])
    );
}

#[test]
fn decode_values() {
    assert_eq!(
        Row([1, 2, 4, (-5_i64) as u64]).decode(),
        Ok(DecodedRow::Association(id(1), id(2), Value::Integer(-5)))
    );
    assert_eq!(
        Row([1, 2, 5, 1.5_f64.to_bits()]).decode(),
        Ok(DecodedRow::Association(id(1), id(2), Value::FloatBits(1.5_f64.to_bits())))
    );
    assert_eq!(
        Row([1, 2, 21 | (('x' as u64) << 32), 0]).decode(),
        Ok(DecodedRow::Association(id(1), id(2), Value::Character('x')))
    );
    // A surrogate is no character.
    assert_eq!(Row([1, 2, 21 | (0xD800 << 32), 0]).decode(), Err(()));
    // A row without tag is no association.
    assert_eq!(Row([1, 0, 4, 4]).decode(), Err(()));
}

#[test]
fn decode_durations() {
    match Row([1, 2, 6 | (5 << 8), 0]).decode() {
        Ok(DecodedRow::Association(_, _, Value::Duration(d))) => assert_eq!(d.as_nanos(), 5),
        other => panic!("unexpected {other:?}"),
    }
    // All ones in the fifteen bytes is minus one.
    match Row([1, 2, 6 | (u64::MAX << 8), u64::MAX]).decode() {
        Ok(DecodedRow::Association(_, _, Value::Duration(d))) => assert_eq!(d.as_nanos(), -1),
        other => panic!("unexpected {other:?}"),
    }
}

#[test]
fn rows_exist() {
    let rows = [Row([1, 2, 3, 4]), Row([0, 0, 0, 0])];
    assert!(row_exists(&rows, Row([0, 0, 0, 0])));
    assert!(!row_exists(&rows, Row([1, 2, 3, 5])));
}

#[test]
fn core_values_decode() {
    assert_eq!(CoreValue([4, 42]).decode(), Some(DecodedValue::Integer(42)));
    assert_eq!(CoreValue([5, 7]).decode(), Some(DecodedValue::FloatBits(7)));
    assert_eq!(CoreValue([21 | (('a' as u64) << 32), 0]).decode(), Some(DecodedValue::Character('a')));
    assert_eq!(CoreValue([21 | (0xDFFF << 32), 0]).decode(), Some(DecodedValue::Character('\u{FFFD}')));
    assert_eq!(CoreValue([99, 0]).decode(), None);
}

#[test]
fn inline_strings_check_utf8() {
    assert!(InlineStr::new(*b"hello").is_some());
    assert!(InlineStr::new([0xFF, 0xFE]).is_none());
    assert_eq!(InlineStr::new(*b"abc").unwrap().as_bytes(), b"abc");
    let mut text = [0u8; 14];
    text[..2].copy_from_slice(b"ok");
    assert_eq!(InlineText::new(2, text).unwrap().as_bytes(), b"ok".to_vec());
    assert!(InlineText::new(15, text).is_none());
    text[2] = 0xFF;
    assert!(InlineText::new(3, text).is_none());
    assert_eq!(InlineBytes::new(3, [9; 14]).unwrap().as_bytes(), vec![9, 9, 9]);
    assert!(InlineBytes::new(20, [9; 14]).is_none());
}
