use relstore::codec::CodecError;
use relstore::types::{DataTypeTag, DataValue};

fn round_trip(v: &DataValue, type_id: u8, len: u32) -> DataValue {
    let bytes = v.to_bytes(len);
    DataValue::from_bytes(&bytes, type_id, len).unwrap()
}

#[test]
fn round_trip_every_type() {
    assert!(matches!(round_trip(&DataValue::SmallInt(-2), 1, 2), DataValue::SmallInt(-2)));
    assert!(matches!(round_trip(&DataValue::SmallInt(i16::MIN), 1, 2), DataValue::SmallInt(i16::MIN)));
    assert!(matches!(round_trip(&DataValue::Int(123456), 2, 4), DataValue::Int(123456)));
    assert!(matches!(round_trip(&DataValue::Int(-1), 2, 4), DataValue::Int(-1)));
    assert!(matches!(round_trip(&DataValue::BigInt(i64::MIN), 3, 8), DataValue::BigInt(i64::MIN)));
    assert!(matches!(round_trip(&DataValue::BigInt(i64::MAX), 3, 8), DataValue::BigInt(i64::MAX)));
    let bits = 2.5f64.to_bits();
    match round_trip(&DataValue::Double(bits), 4, 8) {
        DataValue::Double(b) => assert_eq!(f64::from_bits(b), 2.5),
        other => panic!("{:?}", other),
    }
    match round_trip(&DataValue::Char(b"abc".to_vec()), 5, 10) {
        DataValue::Char(b) => assert_eq!(b, b"abc".to_vec()),
        other => panic!("{:?}", other),
    }
    match round_trip(&DataValue::VarChar(Vec::new()), 6, 5) {
        DataValue::VarChar(b) => assert!(b.is_empty()),
        other => panic!("{:?}", other),
    }
    assert!(matches!(round_trip(&DataValue::Bool(true), 7, 1), DataValue::Bool(true)));
    assert!(matches!(round_trip(&DataValue::Bool(false), 7, 1), DataValue::Bool(false)));
    let id: [u8; 16] = [1, 2, 3, 4, 5, 6, 7, 8, 9, 10, 11, 12, 13, 14, 15, 16];
    match round_trip(&DataValue::Uuid(id), 8, 16) {
        DataValue::Uuid(b) => assert_eq!(b, id),
        other => panic!("{:?}", other),
    }
    assert!(matches!(round_trip(&DataValue::Date(-719162), 9, 4), DataValue::Date(-719162)));
    assert!(matches!(round_trip(&DataValue::Time(86_399_999_999), 10, 8), DataValue::Time(86_399_999_999)));
    assert!(matches!(
        round_trip(&DataValue::Timestamp(1_700_000_000_000_000), 11, 8),
        DataValue::Timestamp(1_700_000_000_000_000)
    ));
}

#[test]
fn fixed_width_values_are_little_endian() {
    assert_eq!(DataValue::SmallInt(-2).to_bytes(45), vec![0xfe, 0xff]);
    assert_eq!(DataValue::Int(1).to_bytes(4), vec![1, 0, 0, 0]);
    assert_eq!(DataValue::Int(0x01020304).to_bytes(0), vec![4, 3, 2, 1]);
    assert_eq!(DataValue::BigInt(-1).to_bytes(8), vec![0xff; 8]);
    assert_eq!(DataValue::Date(256).to_bytes(4), vec![0, 1, 0, 0]);
    assert_eq!(DataValue::Bool(true).to_bytes(1), vec![1]);
    assert_eq!(DataValue::Double(1.0f64.to_bits()).to_bytes(8), 1.0f64.to_le_bytes().to_vec());
}

#[test]
fn text_is_zero_padded_to_declared_length() {
    assert_eq!(DataValue::VarChar(b"ab".to_vec()).to_bytes(5), vec![b'a', b'b', 0, 0, 0]);
    assert_eq!(DataValue::Char(b"xyz".to_vec()).to_bytes(3), b"xyz".to_vec());
    assert_eq!(DataValue::Char(b"xyz".to_vec()).to_bytes(0), Vec::<u8>::new());
}

#[test]
fn varchar_longer_than_column_is_truncated() {
    let stored = DataValue::VarChar(b"abcdef".to_vec()).to_bytes(3);
    assert_eq!(stored, b"abc".to_vec());
    assert_eq!(stored.len(), 3);
    match DataValue::from_bytes(&stored, 6, 3).unwrap() {
        DataValue::VarChar(b) => assert_eq!(b, b"abc".to_vec()),
        other => panic!("{:?}", other),
    }
}

#[test]
fn decoding_geometric_or_unknown_type_fails() {
    let bytes = vec![0u8; 16];
    assert!(matches!(DataValue::from_bytes(&bytes, 12, 16), Err(CodecError::UnsupportedType(12))));
    assert!(matches!(DataValue::from_bytes(&bytes, 0, 16), Err(CodecError::UnsupportedType(0))));
    assert!(matches!(DataValue::from_bytes(&bytes, 200, 16), Err(CodecError::UnsupportedType(200))));
}

#[test]
fn decoding_short_buffer_fails() {
    assert!(matches!(DataValue::from_bytes(&[1, 2, 3], 2, 4), Err(CodecError::ShortBuffer)));
    assert!(matches!(DataValue::from_bytes(&[1], 1, 2), Err(CodecError::ShortBuffer)));
    assert!(matches!(DataValue::from_bytes(&[0; 15], 8, 16), Err(CodecError::ShortBuffer)));
    assert!(matches!(DataValue::from_bytes(&[b'a'; 4], 6, 5), Err(CodecError::ShortBuffer)));
    assert!(matches!(DataValue::from_bytes(&[], 7, 1), Err(CodecError::ShortBuffer)));
}

#[test]
fn decoding_reads_only_the_type_width() {
    match DataValue::from_bytes(&[7, 0, 0, 0, 9, 9], 2, 6).unwrap() {
        DataValue::Int(v) => assert_eq!(v, 7),
        other => panic!("{:?}", other),
    }
    match DataValue::from_bytes(&[b'h', b'i', 0, 0, b'x'], 6, 4).unwrap() {
        DataValue::VarChar(b) => assert_eq!(b, b"hi".to_vec()),
        other => panic!("{:?}", other),
    }
    assert!(matches!(DataValue::from_bytes(&[2], 7, 1).unwrap(), DataValue::Bool(true)));
}

#[test]
fn type_tags_and_ids() {
    assert_eq!(DataTypeTag::SMALLINT.id(), 1);
    assert_eq!(DataTypeTag::VARCHAR.id(), 6);
    assert_eq!(DataTypeTag::GEOMETRIC.id(), 12);
    assert_eq!(DataTypeTag::from_id(11), Some(DataTypeTag::TIMESTAMP));
    assert_eq!(DataTypeTag::from_id(0), None);
    assert_eq!(DataTypeTag::from_id(13), None);
    assert_eq!(relstore::types::IndexType::BPlusTree.id(), 5);
}

#[test]
fn values_render_as_text() {
    assert_eq!(DataValue::SmallInt(-32768).to_string(), "-32768");
    assert_eq!(DataValue::Int(0).to_string(), "0");
    assert_eq!(DataValue::BigInt(i64::MIN).to_string(), "-9223372036854775808");
    assert_eq!(DataValue::BigInt(1234567890123).to_string(), "1234567890123");
    assert_eq!(DataValue::Bool(false).to_string(), "false");
    assert_eq!(DataValue::VarChar("María".as_bytes().to_vec()).to_string(), "María");
    assert_eq!(DataValue::Char(vec![b'a', 0xff]).to_string(), "a\u{fffd}");
    assert_eq!(DataValue::Date(19000).to_string(), "19000");
    let id = [
        0x55, 0x0e, 0x84, 0x00, 0xe2, 0x9b, 0x41, 0xd4, 0xa7, 0x16, 0x44, 0x66, 0x55, 0x44, 0x00, 0x00,
    ];
    assert_eq!(DataValue::Uuid(id).to_string(), "550e8400-e29b-41d4-a716-446655440000");
}
