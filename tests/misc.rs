use serde_asn1_der::{Length, PeekableReader, ReadExt, SerdeAsn1DerError, WriteExt};

#[test]
fn asn1_short_form_length() {
    let mut writer: Vec<u8> = Vec::new();
    let written = Length::serialize(10, &mut writer).expect("serialization failed");
    assert_eq!(written, 1);
    assert_eq!(writer.len(), 1);
    assert_eq!(writer[0], 10);
}

#[test]
fn asn1_long_form_length_1_byte() {
    let mut writer: Vec<u8> = Vec::new();
    let written = Length::serialize(129, &mut writer).expect("serialization failed");
    assert_eq!(written, 2);
    assert_eq!(writer.len(), 2);
    assert_eq!(writer[0], 0x81);
    assert_eq!(writer[1], 0x81);
}

#[test]
fn asn1_long_form_length_2_bytes() {
    let mut writer: Vec<u8> = Vec::new();
    let written = Length::serialize(290, &mut writer).expect("serialization failed");
    assert_eq!(written, 3);
    assert_eq!(writer.len(), 3);
    assert_eq!(writer[0], 0x82);
    assert_eq!(writer[1], 0x01);
    assert_eq!(writer[2], 0x22);
}

fn length_round_trip(n: usize) -> usize {
    let mut writer: Vec<u8> = Vec::new();
    let written = Length::serialize(n, &mut writer).expect("serialization failed");
    assert_eq!(written, writer.len());
    assert_eq!(Length::encoded_len(n), writer.len());
    let mut reader = PeekableReader::new(writer);
    let decoded = Length::deserialized(&mut reader).expect("deserialization failed");
    assert_eq!(reader.pos(), written);
    decoded
}

#[test]
fn length_round_trip_values() {
    for n in [0usize, 1, 127, 128, 255, 256, 290, 65535, 65536, 1 << 31, usize::MAX] {
        assert_eq!(length_round_trip(n), n);
    }
}

#[test]
fn length_is_minimal() {
    let mut writer: Vec<u8> = Vec::new();
    Length::serialize(127, &mut writer).unwrap();
    assert_eq!(writer, vec![0x7f]);
    let mut writer: Vec<u8> = Vec::new();
    Length::serialize(128, &mut writer).unwrap();
    assert_eq!(writer, vec![0x81, 0x80]);
    let mut writer: Vec<u8> = Vec::new();
    Length::serialize(256, &mut writer).unwrap();
    assert_eq!(writer, vec![0x82, 0x01, 0x00]);
    let mut writer: Vec<u8> = Vec::new();
    Length::serialize(usize::MAX, &mut writer).unwrap();
    assert_eq!(writer, vec![0x88, 0xff, 0xff, 0xff, 0xff, 0xff, 0xff, 0xff, 0xff]);
}

#[test]
fn length_errors() {
    let mut reader = PeekableReader::new(vec![]);
    assert_eq!(Length::deserialized(&mut reader), Err(SerdeAsn1DerError::TruncatedData));
    let mut reader = PeekableReader::new(vec![0x82, 0x01]);
    assert_eq!(Length::deserialized(&mut reader), Err(SerdeAsn1DerError::TruncatedData));
    let mut reader = PeekableReader::new(vec![0x89, 1, 2, 3, 4, 5, 6, 7, 8, 9]);
    assert_eq!(Length::deserialized(&mut reader), Err(SerdeAsn1DerError::UnsupportedValue));
    assert_eq!(Length::deserialize_at(&[0x05, 0x81, 0x90], 1), Ok((0x90, 2)));
}

#[test]
fn peekable_reader_peeks_and_counts() {
    let mut reader = PeekableReader::new(vec![1, 2, 3]);
    assert_eq!(reader.peek_one(), Ok(1));
    assert_eq!(reader.peek_one(), Ok(1));
    assert_eq!(reader.pos(), 0);
    assert_eq!(reader.read_one(), Ok(1));
    assert_eq!(reader.pos(), 1);
    assert_eq!(reader.peek_at(1), Ok(3));
    assert_eq!(reader.read_exact(3), Err(SerdeAsn1DerError::TruncatedData));
    assert_eq!(reader.pos(), 1);
    assert_eq!(reader.read_exact(2), Ok(vec![2, 3]));
    assert_eq!(reader.pos(), 3);
    assert_eq!(reader.peek_one(), Err(SerdeAsn1DerError::TruncatedData));
    assert_eq!(reader.read_one(), Err(SerdeAsn1DerError::TruncatedData));
}

#[test]
fn stream_extensions() {
    let mut sink: Vec<u8> = Vec::new();
    assert_eq!(WriteExt::write_one(&mut sink, 0x30), Ok(1));
    assert_eq!(WriteExt::write_exact(&mut sink, &[0x01, 0x02]), Ok(2));
    assert_eq!(sink, vec![0x30, 0x01, 0x02]);
    let mut reader = PeekableReader::new(sink);
    assert_eq!(ReadExt::read_one(&mut reader), Ok(0x30));
    assert_eq!(reader.pos(), 1);
}
