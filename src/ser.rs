use vstd::prelude::*;
use vstd::utf8::encode_utf8;
use crate::error::SerdeAsn1DerError;
use crate::length::{length_bytes, Length};
use crate::primitive::{
    bool_payload, canonical_int, is_canonical_int, tlv, uint_payload, write_tlv, Boolean, Null, UInt,
    UnsignedInteger, Utf8String,
};
use crate::stream::append_bytes;
use crate::registry::{
    is_bytes_name, is_collection_name, is_encapsulator, name_tag, Asn1Name, BitStringAsn1,
    DateAsn1, IntegerAsn1, ObjectIdentifierAsn1, BIT_STRING_TAG, SEQUENCE_TAG,
};

verus! {

/// The model of the encoder's state: the bytes written, the tags that
/// the next byte string and the next sequence will carry, and the pending
/// encapsulation with its wrapper tag.
pub struct SerState {
    pub out: Seq<u8>,
    pub next_bytes_tag: u8,
    pub next_seq_tag: u8,
    pub armed: bool,
    pub wtag: u8,
}

/// The bytes written for the object `inner` under the armed wrapper, if any:
/// the wrapper tag, its length, for a bit string the unused-bits byte 0x00,
/// then the object.
pub open spec fn wrapped(armed: bool, wtag: u8, inner: Seq<u8>) -> Seq<u8> {
    if !armed {
        inner
    } else if wtag == BIT_STRING_TAG {
        seq![wtag] + length_bytes(inner.len() + 1) + seq![0x00u8] + inner
    } else {
        seq![wtag] + length_bytes(inner.len()) + inner
    }
}

/// The wrapper's length can be written.
pub open spec fn wrap_fits(armed: bool, wtag: u8, inner_len: nat) -> bool {
    !(armed && wtag == BIT_STRING_TAG && inner_len >= usize::MAX)
}

/// A fresh encoder over `out`.
pub open spec fn fresh_state(out: Seq<u8>) -> SerState {
    SerState {
        out,
        next_bytes_tag: 0x04,
        next_seq_tag: SEQUENCE_TAG,
        armed: false,
        wtag: BIT_STRING_TAG,
    }
}

/// How a registry name marks the next value.
pub open spec fn marked(s: SerState, name: Asn1Name) -> SerState {
    match name_tag(name) {
        Some(t) => if is_bytes_name(name) {
            SerState { next_bytes_tag: t, ..s }
        } else if is_collection_name(name) {
            SerState { next_seq_tag: t, ..s }
        } else if is_encapsulator(name) {
            SerState { armed: true, wtag: t, ..s }
        } else {
            s
        },
        None => s,
    }
}

/// A DER encoder that appends to a byte buffer.
pub struct Serializer {
    writer: Vec<u8>,
    tag_for_next_bytes: u8,
    tag_for_next_seq: u8,
    encapsulated: bool,
    encapsulator_tag: u8,
}

impl View for Serializer {
    type V = SerState;

    closed spec fn view(&self) -> SerState {
        SerState {
            out: self.writer@,
            next_bytes_tag: self.tag_for_next_bytes,
            next_seq_tag: self.tag_for_next_seq,
            armed: self.encapsulated,
            wtag: self.encapsulator_tag,
        }
    }
}

impl Serializer {
    /// The effect of writing the object `inner` under the armed wrapper: the
    /// wrapped bytes appended and the wrapper disarmed, or where its length
    /// cannot be written, an error and nothing changed.
    pub open spec fn wrote(
        old: SerState,
        new: SerState,
        inner: Seq<u8>,
        r: Result<usize, SerdeAsn1DerError>,
    ) -> bool {
        if wrap_fits(old.armed, old.wtag, inner.len()) {
            &&& new.out == old.out + wrapped(old.armed, old.wtag, inner)
            &&& r == Ok::<usize, SerdeAsn1DerError>(
                wrapped(old.armed, old.wtag, inner).len() as usize,
            )
            &&& !new.armed
            &&& new.wtag == old.wtag
            &&& new.next_seq_tag == old.next_seq_tag
        } else {
            &&& r == Err::<usize, SerdeAsn1DerError>(SerdeAsn1DerError::UnsupportedValue)
            &&& new == old
        }
    }

    /// Creates an encoder that appends to `writer`.
    pub fn new_to_writer(writer: Vec<u8>) -> (r: Self)
        ensures
            r@ == fresh_state(writer@),
    {
        Serializer {
            writer,
            tag_for_next_bytes: 0x04,
            tag_for_next_seq: SEQUENCE_TAG,
            encapsulated: false,
            encapsulator_tag: BIT_STRING_TAG,
        }
    }

    /// Creates an encoder over an empty buffer.
    pub fn new() -> (r: Self)
        ensures
            r@ == fresh_state(Seq::empty()),
    {
        Self::new_to_writer(Vec::new())
    }

    /// The bytes written so far.
    pub fn output(&self) -> (r: &Vec<u8>)
        ensures
            r@ == self@.out,
    {
        &self.writer
    }

    /// Gives up the encoder and returns its bytes.
    pub fn into_inner(self) -> (r: Vec<u8>)
        ensures
            r@ == self@.out,
    {
        self.writer
    }

    /// Arms the wrapper `tag` for the next object.
    fn encapsulate(&mut self, tag: u8)
        ensures
            final(self)@ == (SerState { armed: true, wtag: tag, ..old(self)@ }),
    {
        self.encapsulated = true;
        self.encapsulator_tag = tag;
    }

    /// Writes the object `inner`, under the armed wrapper if there is one.
    fn write_encapsulated(&mut self, inner: &[u8]) -> (r: Result<usize, SerdeAsn1DerError>)
        ensures
            Self::wrote(old(self)@, final(self)@, inner@, r),
            final(self)@.next_bytes_tag == old(self)@.next_bytes_tag,
    {
        let start = self.writer.len();
        if self.encapsulated {
            if self.encapsulator_tag == BIT_STRING_TAG {
                if inner.len() == usize::MAX {
                    return Err(SerdeAsn1DerError::UnsupportedValue);
                }
                self.writer.push(self.encapsulator_tag);
                let _ = Length::serialize(inner.len() + 1, &mut self.writer);
                self.writer.push(0x00);
            } else {
                self.writer.push(self.encapsulator_tag);
                let _ = Length::serialize(inner.len(), &mut self.writer);
            }
            self.encapsulated = false;
        }
        append_bytes(&mut self.writer, inner);
        proof {
            assert(self.writer@ =~= old(self)@.out + wrapped(
                old(self)@.armed,
                old(self)@.wtag,
                inner@,
            ));
        }
        Ok(self.writer.len() - start)
    }

    /// Writes a boolean.
    pub fn serialize_bool(&mut self, v: bool) -> (r: Result<usize, SerdeAsn1DerError>)
        ensures
            Self::wrote(old(self)@, final(self)@, tlv(Boolean::TAG, bool_payload(v)), r),
            final(self)@.next_bytes_tag == old(self)@.next_bytes_tag,
    {
        let mut inner: Vec<u8> = Vec::new();
        let _ = Boolean::serialize(v, &mut inner);
        proof {
            assert(inner@ =~= tlv(Boolean::TAG, bool_payload(v)));
        }
        self.write_encapsulated(inner.as_slice())
    }

    /// Writes a non-negative integer with its minimal payload.
    pub fn serialize_uint<T: UInt>(&mut self, v: T) -> (r: Result<usize, SerdeAsn1DerError>)
        ensures
            Self::wrote(
                old(self)@,
                final(self)@,
                tlv(UnsignedInteger::TAG, uint_payload(v.nat_value())),
                r,
            ),
            final(self)@.next_bytes_tag == old(self)@.next_bytes_tag,
    {
        let mut inner: Vec<u8> = Vec::new();
        let _ = UnsignedInteger::serialize(v, &mut inner);
        proof {
            assert(inner@ =~= tlv(UnsignedInteger::TAG, uint_payload(v.nat_value())));
        }
        self.write_encapsulated(inner.as_slice())
    }

    pub fn serialize_u8(&mut self, v: u8) -> (r: Result<usize, SerdeAsn1DerError>)
        ensures
            Self::wrote(old(self)@, final(self)@, tlv(UnsignedInteger::TAG, uint_payload(v as nat)), r),
            final(self)@.next_bytes_tag == old(self)@.next_bytes_tag,
    {
        self.serialize_uint(v)
    }

    pub fn serialize_u16(&mut self, v: u16) -> (r: Result<usize, SerdeAsn1DerError>)
        ensures
            Self::wrote(old(self)@, final(self)@, tlv(UnsignedInteger::TAG, uint_payload(v as nat)), r),
            final(self)@.next_bytes_tag == old(self)@.next_bytes_tag,
    {
        self.serialize_uint(v)
    }

    pub fn serialize_u32(&mut self, v: u32) -> (r: Result<usize, SerdeAsn1DerError>)
        ensures
            Self::wrote(old(self)@, final(self)@, tlv(UnsignedInteger::TAG, uint_payload(v as nat)), r),
            final(self)@.next_bytes_tag == old(self)@.next_bytes_tag,
    {
        self.serialize_uint(v)
    }

    pub fn serialize_u64(&mut self, v: u64) -> (r: Result<usize, SerdeAsn1DerError>)
        ensures
            Self::wrote(old(self)@, final(self)@, tlv(UnsignedInteger::TAG, uint_payload(v as nat)), r),
            final(self)@.next_bytes_tag == old(self)@.next_bytes_tag,
    {
        self.serialize_uint(v)
    }

    pub fn serialize_u128(&mut self, v: u128) -> (r: Result<usize, SerdeAsn1DerError>)
        ensures
            Self::wrote(old(self)@, final(self)@, tlv(UnsignedInteger::TAG, uint_payload(v as nat)), r),
            final(self)@.next_bytes_tag == old(self)@.next_bytes_tag,
    {
        self.serialize_uint(v)
    }

    /// Writes a UTF-8 string.
    pub fn serialize_str(&mut self, v: &str) -> (r: Result<usize, SerdeAsn1DerError>)
        ensures
            Self::wrote(old(self)@, final(self)@, tlv(Utf8String::TAG, encode_utf8(v@)), r),
            final(self)@.next_bytes_tag == old(self)@.next_bytes_tag,
    {
        let mut inner: Vec<u8> = Vec::new();
        let _ = Utf8String::serialize(v, &mut inner);
        proof {
            assert(inner@ =~= tlv(Utf8String::TAG, encode_utf8(v@)));
        }
        self.write_encapsulated(inner.as_slice())
    }

    /// Writes a character as a one-character UTF-8 string.
    pub fn serialize_char(&mut self, c: char) -> (r: Result<usize, SerdeAsn1DerError>)
        ensures
            Self::wrote(old(self)@, final(self)@, tlv(Utf8String::TAG, encode_utf8(seq![c])), r),
            final(self)@.next_bytes_tag == old(self)@.next_bytes_tag,
    {
        let s = char_to_string(c);
        self.serialize_str(s.as_str())
    }

    /// Writes a byte string under the tag that the last registry name chose
    /// (an octet string by default), then returns to the default.
    pub fn serialize_bytes(&mut self, v: &[u8]) -> (r: Result<usize, SerdeAsn1DerError>)
        ensures
            Self::wrote(old(self)@, final(self)@, tlv(old(self)@.next_bytes_tag, v@), r),
            r is Ok ==> final(self)@.next_bytes_tag == 0x04,
    {
        let mut inner: Vec<u8> = Vec::new();
        let _ = write_tlv(self.tag_for_next_bytes, v, &mut inner);
        proof {
            assert(inner@ =~= tlv(old(self)@.next_bytes_tag, v@));
        }
        let written = self.write_encapsulated(inner.as_slice())?;
        self.tag_for_next_bytes = 0x04;
        Ok(written)
    }

    /// Writes a byte string under `tag`.
    fn serialize_tagged_bytes(&mut self, tag: u8, v: &[u8]) -> (r: Result<usize, SerdeAsn1DerError>)
        ensures
            Self::wrote(old(self)@, final(self)@, tlv(tag, v@), r),
            final(self)@.next_bytes_tag == old(self)@.next_bytes_tag,
    {
        let mut inner: Vec<u8> = Vec::new();
        let _ = write_tlv(tag, v, &mut inner);
        proof {
            assert(inner@ =~= tlv(tag, v@));
        }
        self.write_encapsulated(inner.as_slice())
    }

    /// Writes a null.
    pub fn serialize_unit(&mut self) -> (r: Result<usize, SerdeAsn1DerError>)
        ensures
            Self::wrote(old(self)@, final(self)@, tlv(Null::TAG, Seq::empty()), r),
            final(self)@.next_bytes_tag == old(self)@.next_bytes_tag,
    {
        let mut inner: Vec<u8> = Vec::new();
        let _ = Null::serialize(&mut inner);
        proof {
            assert(inner@ =~= tlv(Null::TAG, Seq::empty()));
        }
        self.write_encapsulated(inner.as_slice())
    }

    /// Marks the next value with a registry name: it chooses the tag of the
    /// next byte string or sequence, or arms a wrapper for the next object.
    pub fn serialize_newtype_struct(&mut self, name: Asn1Name)
        ensures
            final(self)@ == marked(old(self)@, name),
    {
        match name.tag() {
            Some(t) => match name {
                Asn1Name::ObjectIdentifier | Asn1Name::BitString | Asn1Name::Integer
                | Asn1Name::Date => {
                    self.tag_for_next_bytes = t;
                },
                Asn1Name::SetOf | Asn1Name::SequenceOf => {
                    self.tag_for_next_seq = t;
                },
                Asn1Name::BitStringContainer | Asn1Name::ApplicationTag(_) => {
                    self.encapsulate(t);
                },
            },
            None => {},
        }
    }

    /// Starts a sequence, or a set where a registry name chose one; its
    /// elements are written to the returned sequence's own encoder.
    pub fn serialize_seq(&mut self) -> (r: Sequence)
        ensures
            r.tag_spec() == old(self)@.next_seq_tag,
            r.elements@ == fresh_state(Seq::empty()),
            final(self)@ == (SerState { next_seq_tag: SEQUENCE_TAG, ..old(self)@ }),
    {
        let tag = self.tag_for_next_seq;
        self.tag_for_next_seq = SEQUENCE_TAG;
        Sequence::serialize_lazy(tag)
    }

    /// Writes an object identifier from its contents bytes.
    pub fn serialize_object_identifier(&mut self, id: &ObjectIdentifierAsn1) -> (r: Result<usize, SerdeAsn1DerError>)
        ensures
            Self::wrote(old(self)@, final(self)@, tlv(ObjectIdentifierAsn1::TAG, id.0@), r),
            final(self)@.next_bytes_tag == old(self)@.next_bytes_tag,
    {
        self.serialize_tagged_bytes(ObjectIdentifierAsn1::TAG, id.0.as_slice())
    }

    /// Writes an integer of any size from its two's-complement bytes.
    /// The bytes must be minimal; otherwise nothing is written.
    pub fn serialize_integer_asn1(&mut self, n: &IntegerAsn1) -> (r: Result<usize, SerdeAsn1DerError>)
        ensures
            canonical_int(n.0@) ==> Self::wrote(
                old(self)@,
                final(self)@,
                tlv(UnsignedInteger::TAG, n.0@),
                r,
            ),
            !canonical_int(n.0@) ==> r == Err::<usize, SerdeAsn1DerError>(
                SerdeAsn1DerError::InvalidData,
            ) && final(self)@ == old(self)@,
            final(self)@.next_bytes_tag == old(self)@.next_bytes_tag,
    {
        if !is_canonical_int(n.0.as_slice()) {
            return Err(SerdeAsn1DerError::InvalidData);
        }
        self.serialize_tagged_bytes(UnsignedInteger::TAG, n.0.as_slice())
    }

    /// Writes a bit string from its payload.
    pub fn serialize_bit_string(&mut self, b: &BitStringAsn1) -> (r: Result<usize, SerdeAsn1DerError>)
        ensures
            Self::wrote(old(self)@, final(self)@, tlv(BIT_STRING_TAG, b.0@), r),
            final(self)@.next_bytes_tag == old(self)@.next_bytes_tag,
    {
        self.serialize_tagged_bytes(BIT_STRING_TAG, b.0.as_slice())
    }

    /// Writes a time as a UTCTime; it fails where the time has no UTCTime
    /// text, and then writes nothing.
    pub fn serialize_date(&mut self, d: &DateAsn1) -> (r: Result<usize, SerdeAsn1DerError>)
        ensures
            match crate::registry::civil_from_timestamp(d.0) {
                Some(t) => match crate::registry::utc_time_text(t) {
                    Ok(text) => Self::wrote(old(self)@, final(self)@, tlv(DateAsn1::TAG, text), r),
                    Err(e) => r == Err::<usize, SerdeAsn1DerError>(e) && final(self)@ == old(
                        self,
                    )@,
                },
                None => r == Err::<usize, SerdeAsn1DerError>(SerdeAsn1DerError::UnsupportedValue)
                    && final(self)@ == old(self)@,
            },
            final(self)@.next_bytes_tag == old(self)@.next_bytes_tag,
    {
        let text = d.to_utc_time()?;
        self.serialize_tagged_bytes(DateAsn1::TAG, text.as_slice())
    }
}

/// Relies on `String::from(char)`: a string of that one character.
#[verifier::external_body]
fn char_to_string(c: char) -> (r: String)
    ensures
        r@ == seq![c],
{
    String::from(c)
}

/// A sequence being written: its elements go to a private encoder, and the
/// whole is framed once they are all there.
pub struct Sequence {
    /// The encoder that the elements are written to.
    pub elements: Serializer,
    /// The tag the sequence is framed with.
    pub tag: u8,
}

impl Sequence {
    pub const TAG: u8 = 0x30;

    /// The tag the sequence will be framed with.
    pub open spec fn tag_spec(&self) -> u8 {
        self.tag
    }

    /// Starts a sequence framed with `tag` whose elements are written next.
    pub fn serialize_lazy(tag: u8) -> (r: Sequence)
        ensures
            r.tag_spec() == tag,
            r.elements@ == fresh_state(Seq::empty()),
    {
        Sequence { elements: Serializer::new(), tag }
    }

    /// Writes the framed sequence to `ser`: the tag, the length of the
    /// elements' bytes, then those bytes.
    pub fn finalize(self, ser: &mut Serializer) -> (r: Result<usize, SerdeAsn1DerError>)
        ensures
            Serializer::wrote(old(ser)@, final(ser)@, tlv(self.tag_spec(), self.elements@.out), r),
            final(ser)@.next_bytes_tag == old(ser)@.next_bytes_tag,
    {
        let body = self.elements.into_inner();
        let mut inner: Vec<u8> = Vec::new();
        let _ = write_tlv(self.tag, body.as_slice(), &mut inner);
        proof {
            assert(inner@ =~= tlv(self.tag_spec(), self.elements@.out));
        }
        ser.write_encapsulated(inner.as_slice())
    }
}

} // verus!
