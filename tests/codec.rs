use serde_asn1_der::{
    AnyValue, Asn1Name, Boolean, DateAsn1, Deserializer, IntegerAsn1, Null, ObjectIdentifierAsn1,
    OctetString,
    SerdeAsn1DerError, Serializer, UnsignedInteger, Utf8String,
};

fn encoded(f: impl FnOnce(&mut Serializer) -> Result<usize, SerdeAsn1DerError>) -> Vec<u8> {
    let mut ser = Serializer::new();
    let written = f(&mut ser).expect("serialization failed");
    let out = ser.into_inner();
    assert_eq!(written, out.len());
    out
}

#[test]
fn bool_round_trip() {
    for b in [false, true] {
        let bytes = encoded(|s| s.serialize_bool(b));
        assert_eq!(bytes, vec![0x01, 0x01, if b { 0xff } else { 0x00 }]);
        assert_eq!(Deserializer::new_from_bytes(&bytes).deserialize_bool(), Ok(b));
    }
}

#[test]
fn uint_round_trip() {
    for v in [0u128, 1, 3, 110, 127, 128, 255, 256, 65535, u64::MAX as u128, u128::MAX] {
        let bytes = encoded(|s| s.serialize_u128(v));
        assert_eq!(Deserializer::new_from_bytes(&bytes).deserialize_u128(), Ok(v));
    }
    for v in [0u8, 1, 127, 128, 255] {
        let bytes = encoded(|s| s.serialize_u8(v));
        assert_eq!(Deserializer::new_from_bytes(&bytes).deserialize_u8(), Ok(v));
    }
    let bytes = encoded(|s| s.serialize_u16(0x1234));
    assert_eq!(Deserializer::new_from_bytes(&bytes).deserialize_u16(), Ok(0x1234));
    let bytes = encoded(|s| s.serialize_u32(u32::MAX));
    assert_eq!(Deserializer::new_from_bytes(&bytes).deserialize_u32(), Ok(u32::MAX));
    let bytes = encoded(|s| s.serialize_u64(u64::MAX));
    assert_eq!(Deserializer::new_from_bytes(&bytes).deserialize_u64(), Ok(u64::MAX));
}

#[test]
fn uint_minimal_encodings() {
    assert_eq!(encoded(|s| s.serialize_u8(0)), vec![0x02, 0x01, 0x00]);
    assert_eq!(encoded(|s| s.serialize_u8(127)), vec![0x02, 0x01, 0x7f]);
    assert_eq!(encoded(|s| s.serialize_u8(128)), vec![0x02, 0x02, 0x00, 0x80]);
    assert_eq!(encoded(|s| s.serialize_u32(83910)), vec![0x02, 0x03, 0x01, 0x47, 0xc6]);
    let max = encoded(|s| s.serialize_u128(u128::MAX));
    assert_eq!(max.len(), 19);
    assert_eq!(&max[..3], &[0x02, 0x11, 0x00]);
}

#[test]
fn null_octet_string_and_utf8_round_trip() {
    let bytes = encoded(|s| s.serialize_unit());
    assert_eq!(bytes, vec![0x05, 0x00]);
    assert_eq!(Deserializer::new_from_bytes(&bytes).deserialize_unit(), Ok(()));

    let payload: Vec<u8> = (0..200u8).collect();
    let bytes = encoded(|s| s.serialize_bytes(&payload));
    assert_eq!(&bytes[..3], &[0x04, 0x81, 200]);
    assert_eq!(Deserializer::new_from_bytes(&bytes).deserialize_byte_buf(), Ok(payload.clone()));
    assert_eq!(Deserializer::new_from_bytes(&bytes).deserialize_bytes(), Ok(payload));

    let empty = encoded(|s| s.serialize_bytes(&[]));
    assert_eq!(empty, vec![0x04, 0x00]);
    assert_eq!(Deserializer::new_from_bytes(&empty).deserialize_bytes(), Ok(vec![]));

    let text = "héllo, 世界";
    let bytes = encoded(|s| s.serialize_str(text));
    assert_eq!(bytes[0], 0x0c);
    assert_eq!(bytes[1] as usize, text.len());
    assert_eq!(Deserializer::new_from_bytes(&bytes).deserialize_string(), Ok(text.to_string()));
}

#[test]
fn char_round_trip() {
    let bytes = encoded(|s| s.serialize_char('é'));
    assert_eq!(bytes, vec![0x0c, 0x02, 0xc3, 0xa9]);
    assert_eq!(Deserializer::new_from_bytes(&bytes).deserialize_char(), Ok('é'));
    let empty = encoded(|s| s.serialize_str(""));
    assert_eq!(
        Deserializer::new_from_bytes(&empty).deserialize_char(),
        Err(SerdeAsn1DerError::UnsupportedValue)
    );
}

#[test]
fn primitive_payload_codecs() {
    assert_eq!(Boolean::deserialize(&[0xff]), Ok(true));
    assert_eq!(Boolean::deserialize(&[0x00]), Ok(false));
    assert_eq!(Boolean::deserialize(&[]), Err(SerdeAsn1DerError::TruncatedData));
    assert_eq!(Boolean::deserialize(&[0x00, 0x00]), Err(SerdeAsn1DerError::InvalidData));
    assert_eq!(Null::deserialize(&[]), Ok(()));
    assert_eq!(Null::deserialize(&[0]), Err(SerdeAsn1DerError::InvalidData));
    assert_eq!(OctetString::deserialize(&[1, 2, 3]), Ok(&[1u8, 2, 3][..]));
    assert_eq!(Utf8String::deserialize(b"abc"), Ok("abc"));
    assert_eq!(Utf8String::deserialize(&[0xff, 0xfe]), Err(SerdeAsn1DerError::InvalidData));
    assert_eq!(UnsignedInteger::deserialize::<u16>(&[0x01, 0x00]), Ok(256u16));
    assert_eq!(
        UnsignedInteger::deserialize::<u8>(&[0x01, 0x00]),
        Err(SerdeAsn1DerError::UnsupportedValue)
    );
    assert_eq!(UnsignedInteger::deserialize::<u8>(&[]), Err(SerdeAsn1DerError::TruncatedData));
    let mut out = Vec::new();
    assert_eq!(UnsignedInteger::serialize(0x80u8, &mut out), Ok(4));
    assert_eq!(out, vec![0x02, 0x02, 0x00, 0x80]);
}

#[test]
fn canonical_rejection() {
    assert_eq!(
        UnsignedInteger::deserialize::<u8>(&[0x00, 0x05]),
        Err(SerdeAsn1DerError::InvalidData)
    );
    assert_eq!(
        Deserializer::new_from_bytes(&[0x02, 0x02, 0x00, 0x05]).deserialize_u8(),
        Err(SerdeAsn1DerError::InvalidData)
    );
    assert_eq!(UnsignedInteger::deserialize::<u8>(&[0x00]), Ok(0u8));
    assert_eq!(Deserializer::new_from_bytes(&[0x02, 0x01, 0x00]).deserialize_u8(), Ok(0));
    assert_eq!(Boolean::deserialize(&[0x01]), Err(SerdeAsn1DerError::InvalidData));
    assert_eq!(
        Deserializer::new_from_bytes(&[0x01, 0x01, 0x01]).deserialize_bool(),
        Err(SerdeAsn1DerError::InvalidData)
    );
    assert_eq!(
        Deserializer::new_from_bytes(&[0x02, 0x01, 0x80]).deserialize_u8(),
        Err(SerdeAsn1DerError::UnsupportedValue)
    );
}

fn encode_u8_sequence(items: &[u8]) -> Vec<u8> {
    let mut ser = Serializer::new();
    let mut seq = ser.serialize_seq();
    for item in items {
        seq.elements.serialize_u8(*item).unwrap();
    }
    seq.finalize(&mut ser).unwrap();
    ser.into_inner()
}

fn decode_u8_sequence(bytes: &[u8]) -> Result<Vec<u8>, SerdeAsn1DerError> {
    let mut de = Deserializer::new_from_bytes(bytes);
    let mut seq = de.deserialize_seq()?;
    let mut out = Vec::new();
    while seq.next_element(&de)? {
        out.push(de.deserialize_u8()?);
    }
    Ok(out)
}

#[test]
fn sequence_framing() {
    assert_eq!(encode_u8_sequence(&[3]), vec![0x30, 0x03, 0x02, 0x01, 0x03]);
    let two = encode_u8_sequence(&[3, 110]);
    assert_eq!(two, vec![0x30, 0x06, 0x02, 0x01, 0x03, 0x02, 0x01, 0x6E]);
    assert_eq!(decode_u8_sequence(&two), Ok(vec![3, 110]));
    assert_eq!(decode_u8_sequence(&[0x30, 0x03, 0x02, 0x01, 0x03]), Ok(vec![3]));
    assert_eq!(decode_u8_sequence(&[0x30, 0x00]), Ok(vec![]));
    assert_eq!(encode_u8_sequence(&[]), vec![0x30, 0x00]);
}

#[test]
fn sequence_length_mismatch() {
    assert_eq!(
        decode_u8_sequence(&[0x30, 0x02, 0x02, 0x01, 0x03]),
        Err(SerdeAsn1DerError::InvalidData)
    );
    assert_eq!(
        decode_u8_sequence(&[0x30, 0x04, 0x02, 0x01, 0x03]),
        Err(SerdeAsn1DerError::TruncatedData)
    );
    assert_eq!(
        decode_u8_sequence(&[0x30, 0x04, 0x02, 0x01, 0x03, 0x02, 0x01, 0x04]),
        Err(SerdeAsn1DerError::InvalidData)
    );
    let mut de = Deserializer::new_from_bytes(&[0x30, 0x06, 0x02, 0x01, 0x03, 0x02, 0x01, 0x04]);
    let mut seq = de.deserialize_seq().unwrap();
    assert_eq!(de.deserialize_u8(), Ok(3));
    assert_eq!(seq.end(&de), Err(SerdeAsn1DerError::InvalidData));
    assert_eq!(
        Deserializer::new_from_bytes(&[0x04, 0x00]).deserialize_seq().err(),
        Some(SerdeAsn1DerError::InvalidData)
    );
}

#[test]
fn context_tag_sequence_round_trip() {
    let mut ser = Serializer::new();
    ser.serialize_newtype_struct(Asn1Name::ApplicationTag(0));
    let mut seq = ser.serialize_seq();
    seq.elements.serialize_u8(3).unwrap();
    seq.elements.serialize_bool(true).unwrap();
    seq.finalize(&mut ser).unwrap();
    let bytes = ser.into_inner();
    assert_eq!(bytes, vec![0xA0, 0x08, 0x30, 0x06, 0x02, 0x01, 0x03, 0x01, 0x01, 0xff]);

    let mut de = Deserializer::new_from_bytes(&bytes);
    de.deserialize_newtype_struct(Asn1Name::ApplicationTag(0));
    let mut seq = de.deserialize_seq().unwrap();
    assert_eq!(seq.next_element(&de), Ok(true));
    assert_eq!(de.deserialize_u8(), Ok(3));
    assert_eq!(seq.next_element(&de), Ok(true));
    assert_eq!(de.deserialize_bool(), Ok(true));
    assert_eq!(seq.next_element(&de), Ok(false));
}

#[test]
fn absent_context_tag_leaves_input_for_default() {
    let bytes = [0x02, 0x01, 0x6E];
    let mut de = Deserializer::new_from_bytes(&bytes);
    de.deserialize_newtype_struct(Asn1Name::ApplicationTag(3));
    assert_eq!(de.deserialize_u8(), Err(SerdeAsn1DerError::InvalidData));
    assert_eq!(de.pos(), 0);
    assert_eq!(de.deserialize_u8(), Ok(0x6E));
}

#[test]
fn bit_string_container_of_sequence() {
    let buffer = [
        0x03, 0x10, 0x00, 0x30, 0x0d, 0x02, 0x03, 0x01, 0x47, 0xc6, 0x02, 0x02, 0x0e, 0xff, 0x02,
        0x02, 0x0f, 0xb7,
    ];
    let mut ser = Serializer::new();
    ser.serialize_newtype_struct(Asn1Name::BitStringContainer);
    let mut seq = ser.serialize_seq();
    seq.elements.serialize_u32(83910).unwrap();
    seq.elements.serialize_u16(3839).unwrap();
    seq.elements.serialize_u16(4023).unwrap();
    seq.finalize(&mut ser).unwrap();
    assert_eq!(ser.into_inner(), buffer.to_vec());

    let mut de = Deserializer::new_from_bytes(&buffer);
    de.deserialize_newtype_struct(Asn1Name::BitStringContainer);
    let mut seq = de.deserialize_seq().unwrap();
    assert_eq!(de.deserialize_u32(), Ok(83910));
    assert_eq!(de.deserialize_u16(), Ok(3839));
    assert_eq!(de.deserialize_u16(), Ok(4023));
    assert_eq!(seq.end(&de), Ok(()));
}

#[test]
fn truncated_inputs() {
    let full = encoded(|s| s.serialize_str("truncate me"));
    for k in 0..full.len() {
        assert_eq!(
            Deserializer::new_from_bytes(&full[..k]).deserialize_string(),
            Err(SerdeAsn1DerError::TruncatedData)
        );
    }
    let long: Vec<u8> = vec![7; 300];
    let full = encoded(|s| s.serialize_bytes(&long));
    for k in [0, 1, 2, 3, 4, 299, full.len() - 1] {
        assert_eq!(
            Deserializer::new_from_bytes(&full[..k]).deserialize_bytes(),
            Err(SerdeAsn1DerError::TruncatedData)
        );
    }
    assert_eq!(
        Deserializer::new_from_bytes(&[0x01, 0x01]).deserialize_bool(),
        Err(SerdeAsn1DerError::TruncatedData)
    );
    assert_eq!(
        Deserializer::new_from_bytes(&[0x02, 0x00]).deserialize_u8(),
        Err(SerdeAsn1DerError::TruncatedData)
    );
    let wrapped = [0xA0, 0x03, 0x02, 0x01];
    let mut de = Deserializer::new_from_bytes(&wrapped);
    de.deserialize_newtype_struct(Asn1Name::ApplicationTag(0));
    assert_eq!(de.deserialize_u8(), Err(SerdeAsn1DerError::TruncatedData));
    let mut de = Deserializer::new_from_bytes(&[0xA0]);
    de.deserialize_newtype_struct(Asn1Name::ApplicationTag(0));
    assert_eq!(de.deserialize_u8(), Err(SerdeAsn1DerError::TruncatedData));
}

#[test]
fn object_identifier_scenario() {
    let oid = ObjectIdentifierAsn1::from_dotted("1.3.14.3.2.26").unwrap();
    assert_eq!(oid.0, vec![0x2B, 0x0E, 0x03, 0x02, 0x1A]);
    let bytes = encoded(|s| s.serialize_object_identifier(&oid));
    assert_eq!(bytes, vec![0x06, 0x05, 0x2B, 0x0E, 0x03, 0x02, 0x1A]);
    assert_eq!(Deserializer::new_from_bytes(&bytes).deserialize_object_identifier(), Ok(oid));
    assert_eq!(
        ObjectIdentifierAsn1::from_dotted("not an identifier"),
        Err(SerdeAsn1DerError::InvalidData)
    );
}

#[test]
fn date_errors() {
    let mut ser = Serializer::new();
    // 2100-01-01T00:00:00Z has no UTCTime text
    assert_eq!(ser.serialize_date(&DateAsn1(4102444800)), Err(SerdeAsn1DerError::UnsupportedValue));
    assert_eq!(ser.into_inner(), Vec::<u8>::new());
    let bytes = encoded(|s| s.serialize_date(&DateAsn1(0)));
    assert_eq!(&bytes[2..], b"700101000000Z");
    assert_eq!(DateAsn1::from_utc_time(b"700101000000Z"), Ok(DateAsn1(0)));
    assert_eq!(DateAsn1::from_utc_time(b"490101000000Z"), Ok(DateAsn1(2493072000)));
    assert_eq!(DateAsn1::from_utc_time(b"190230000000Z"), Err(SerdeAsn1DerError::InvalidData));
    assert_eq!(DateAsn1::from_utc_time(b"1902"), Err(SerdeAsn1DerError::InvalidData));
}

#[test]
fn self_describing_reads() {
    let mut ser = Serializer::new();
    let mut seq = ser.serialize_seq();
    seq.elements.serialize_bool(false).unwrap();
    seq.elements.serialize_u64(1 << 40).unwrap();
    seq.elements.serialize_unit().unwrap();
    seq.elements.serialize_bytes(&[9, 9]).unwrap();
    seq.elements.serialize_str("x").unwrap();
    seq.elements.serialize_newtype_struct(Asn1Name::ApplicationTag(5));
    seq.elements.serialize_u8(7).unwrap();
    seq.elements.serialize_newtype_struct(Asn1Name::BitString);
    seq.elements.serialize_bytes(&[0, 1]).unwrap();
    seq.finalize(&mut ser).unwrap();
    let bytes = ser.into_inner();

    let mut de = Deserializer::new_from_bytes(&bytes);
    let mut seq = match de.deserialize_any() {
        Ok(AnyValue::Sequence(q)) => q,
        _ => panic!("expected a sequence"),
    };
    let mut found = Vec::new();
    while seq.next_element(&de).unwrap() {
        let value = de.deserialize_any().unwrap();
        let line = match value {
            AnyValue::Bool(b) => format!("bool {}", b),
            AnyValue::Integer(v) => format!("int {}", v),
            AnyValue::Null => "null".to_string(),
            AnyValue::OctetString(b) => format!("octets {:?}", b),
            AnyValue::Utf8String(s) => format!("string {}", s),
            AnyValue::Tagged(name) => format!("tagged {:?}", name),
            AnyValue::BitString(b) => format!("bits {:?}", b),
            AnyValue::ObjectIdentifier(_) | AnyValue::Date(_) | AnyValue::Sequence(_) => {
                "other".to_string()
            }
        };
        found.push(line);
    }
    assert_eq!(
        found,
        vec![
            "bool false",
            "int 1099511627776",
            "null",
            "octets [9, 9]",
            "string x",
            "tagged ApplicationTag(5)",
            "int 7",
            "bits [0, 1]",
        ]
    );
    assert_eq!(
        Deserializer::new_from_bytes(&[0x09, 0x00]).deserialize_any().err(),
        Some(SerdeAsn1DerError::InvalidData)
    );
}

#[test]
fn ignored_any_skips_one_object() {
    let bytes = [0x04, 0x02, 0xaa, 0xbb, 0x01, 0x01, 0xff];
    let mut de = Deserializer::new_from_bytes(&bytes);
    assert_eq!(de.deserialize_ignored_any(), Ok(()));
    assert_eq!(de.pos(), 4);
    assert_eq!(de.deserialize_bool(), Ok(true));
}

#[test]
fn registry_tags() {
    assert_eq!(Asn1Name::ApplicationTag(0).tag(), Some(0xA0));
    assert_eq!(Asn1Name::ApplicationTag(15).tag(), Some(0xAF));
    assert_eq!(Asn1Name::ApplicationTag(16).tag(), None);
    assert_eq!(Asn1Name::BitStringContainer.tag(), Some(0x03));
    assert_eq!(Asn1Name::SetOf.tag(), Some(0x31));
    assert_eq!(Asn1Name::Date.tag(), Some(0x17));
    assert_eq!(Asn1Name::from_context_tag(0xA7), Some(Asn1Name::ApplicationTag(7)));
    assert_eq!(Asn1Name::from_context_tag(0x30), None);
}

#[test]
fn integer_asn1_must_be_minimal() {
    for bytes in [vec![0x02, 0x00], vec![0x02, 0x02, 0x00, 0x05], vec![0x02, 0x02, 0xff, 0x80]] {
        assert_eq!(
            Deserializer::new_from_bytes(&bytes).deserialize_integer_asn1(),
            Err(SerdeAsn1DerError::InvalidData)
        );
    }
    assert_eq!(
        Deserializer::new_from_bytes(&[0x02, 0x02, 0x00, 0x80]).deserialize_integer_asn1(),
        Ok(IntegerAsn1(vec![0x00, 0x80]))
    );
    assert_eq!(
        Deserializer::new_from_bytes(&[0x02, 0x02, 0xff, 0x7f]).deserialize_integer_asn1(),
        Ok(IntegerAsn1(vec![0xff, 0x7f]))
    );
    for bad in [vec![], vec![0x00, 0x05], vec![0xff, 0x80]] {
        let mut ser = Serializer::new();
        assert_eq!(
            ser.serialize_integer_asn1(&IntegerAsn1(bad)),
            Err(SerdeAsn1DerError::InvalidData)
        );
        assert_eq!(ser.into_inner(), Vec::<u8>::new());
    }
}

#[test]
fn self_describing_read_moves_the_decoder() {
    let mut de = Deserializer::new_from_bytes(&[0x09, 0x00]);
    assert_eq!(de.deserialize_any().err(), Some(SerdeAsn1DerError::InvalidData));
    assert_eq!(de.pos(), 0);

    let bytes = [0xA2, 0x03, 0x02, 0x01, 0x05];
    let mut de = Deserializer::new_from_bytes(&bytes);
    assert!(matches!(de.deserialize_any(), Ok(AnyValue::Tagged(Asn1Name::ApplicationTag(2)))));
    assert_eq!(de.pos(), 0);
    assert!(matches!(de.deserialize_any(), Ok(AnyValue::Integer(5))));
    assert_eq!(de.pos(), 5);

    let bytes = [0x30, 0x03, 0x01, 0x01, 0x00];
    let mut de = Deserializer::new_from_bytes(&bytes);
    assert!(matches!(de.deserialize_any(), Ok(AnyValue::Sequence(_))));
    assert_eq!(de.pos(), 2);
    assert!(matches!(de.deserialize_any(), Ok(AnyValue::Bool(false))));
    assert_eq!(de.pos(), 5);
}

#[test]
fn truncated_sequences() {
    let full = encode_u8_sequence(&[3, 110, 255]);
    assert_eq!(decode_u8_sequence(&full), Ok(vec![3, 110, 255]));
    for k in 0..full.len() {
        assert_eq!(decode_u8_sequence(&full[..k]), Err(SerdeAsn1DerError::TruncatedData));
    }
}
