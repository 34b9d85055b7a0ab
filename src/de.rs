use vstd::prelude::*;
use crate::error::SerdeAsn1DerError;
use crate::length::{parse_length, Length};
use crate::primitive::{
    canonical_int, is_canonical_int, decode_bool, decode_null, decode_uint, decode_utf8_string, lemma_decode_uint_bound, Boolean,
    Null, OctetString, UInt, UnsignedInteger, Utf8String,
};
use crate::reader::PeekableReader;
use crate::registry::{
    is_encapsulator, name_tag, Asn1Name, BitStringAsn1, DateAsn1, IntegerAsn1,
    ObjectIdentifierAsn1, BIT_STRING_TAG, OBJECT_IDENTIFIER_TAG, SEQUENCE_TAG, SET_TAG,
    UTC_TIME_TAG,
};

verus! {

/// The model of the decoder's state: the whole input, the number of bytes
/// consumed, and the pending encapsulation with its wrapper tag.
pub struct DeState {
    pub data: Seq<u8>,
    pub pos: nat,
    pub armed: bool,
    pub wtag: u8,
}

pub open spec fn rest_of(s: DeState) -> Seq<u8> {
    s.data.subrange(s.pos as int, s.data.len() as int)
}

/// The size of the wrapper header at the start of `r`: tag, length field, and
/// for a bit string the unused-bits byte.
pub open spec fn wrapper_header(r: Seq<u8>, wtag: u8) -> Result<nat, SerdeAsn1DerError> {
    if r.len() == 0 {
        Err(SerdeAsn1DerError::TruncatedData)
    } else if r[0] != wtag {
        Err(SerdeAsn1DerError::InvalidData)
    } else {
        match parse_length(r.drop_first()) {
            Ok((_, used)) => Ok(1 + used + if wtag == BIT_STRING_TAG {
                1nat
            } else {
                0nat
            }),
            Err(e) => Err(e),
        }
    }
}

/// The tag of the next object, looking through an armed wrapper.
pub open spec fn peek_object_spec(s: DeState) -> Result<u8, SerdeAsn1DerError> {
    let r = rest_of(s);
    if !s.armed {
        if r.len() > 0 {
            Ok(r[0])
        } else {
            Err(SerdeAsn1DerError::TruncatedData)
        }
    } else {
        match wrapper_header(r, s.wtag) {
            Ok(h) => if h < r.len() {
                Ok(r[h as int])
            } else {
                Err(SerdeAsn1DerError::TruncatedData)
            },
            Err(e) => Err(e),
        }
    }
}

/// An armed wrapper whose tag is not the next byte.
pub open spec fn wrapper_mismatch(s: DeState) -> bool {
    s.armed && rest_of(s).len() > 0 && rest_of(s)[0] != s.wtag
}

/// The position after the armed wrapper header, if any.
pub open spec fn decapsulated_pos(s: DeState) -> Result<nat, SerdeAsn1DerError> {
    if !s.armed {
        Ok(s.pos)
    } else {
        match wrapper_header(rest_of(s), s.wtag) {
            Ok(h) => if h <= rest_of(s).len() {
                Ok(s.pos + h)
            } else {
                Err(SerdeAsn1DerError::TruncatedData)
            },
            Err(e) => Err(e),
        }
    }
}

/// Reads one object at the start of `r`: its tag, its payload and its size.
pub open spec fn parse_tlv(r: Seq<u8>) -> Result<(u8, Seq<u8>, nat), SerdeAsn1DerError> {
    if r.len() == 0 {
        Err(SerdeAsn1DerError::TruncatedData)
    } else {
        match parse_length(r.drop_first()) {
            Ok((l, used)) => if 1 + used + l <= r.len() {
                Ok((r[0], r.subrange(1 + used as int, (1 + used + l) as int), 1 + used + l))
            } else {
                Err(SerdeAsn1DerError::TruncatedData)
            },
            Err(e) => Err(e),
        }
    }
}

/// The next object after the armed wrapper: tag, payload and the position
/// after it.
pub open spec fn next_object_spec(s: DeState) -> Result<(u8, Seq<u8>, nat), SerdeAsn1DerError> {
    match decapsulated_pos(s) {
        Ok(p) => match parse_tlv(s.data.subrange(p as int, s.data.len() as int)) {
            Ok((t, payload, n)) => Ok((t, payload, p + n)),
            Err(e) => Err(e),
        },
        Err(e) => Err(e),
    }
}

/// The payload of the next object and the position after it, where its tag
/// is one that `accepted` holds of; nothing is consumed otherwise.
pub open spec fn object_spec(s: DeState, accepted: spec_fn(u8) -> bool) -> Result<
    (Seq<u8>, nat),
    SerdeAsn1DerError,
> {
    match peek_object_spec(s) {
        Ok(t) => if !accepted(t) {
            Err(SerdeAsn1DerError::InvalidData)
        } else {
            match next_object_spec(s) {
                Ok((_, p, np)) => Ok((p, np)),
                Err(e) => Err(e),
            }
        },
        Err(e) => Err(e),
    }
}

pub open spec fn tag_is(tag: u8) -> spec_fn(u8) -> bool {
    |t: u8| t == tag
}

/// The tags that a byte string can be read from.
pub open spec fn bytes_tags() -> spec_fn(u8) -> bool {
    |t: u8|
        t == OctetString::TAG || t == OBJECT_IDENTIFIER_TAG || t == BIT_STRING_TAG || t
            == UnsignedInteger::TAG || t == UTC_TIME_TAG
}

/// The tags that an owned byte buffer can be read from.
pub open spec fn byte_buf_tags() -> spec_fn(u8) -> bool {
    |t: u8| t == OctetString::TAG || t == BIT_STRING_TAG
}

pub open spec fn bool_outcome(s: DeState) -> Result<bool, SerdeAsn1DerError> {
    match object_spec(s, tag_is(Boolean::TAG)) {
        Ok((p, _)) => decode_bool(p),
        Err(e) => Err(e),
    }
}

pub open spec fn uint_outcome(s: DeState) -> Result<nat, SerdeAsn1DerError> {
    match object_spec(s, tag_is(UnsignedInteger::TAG)) {
        Ok((p, _)) => decode_uint(p),
        Err(e) => Err(e),
    }
}

pub open spec fn string_outcome(s: DeState) -> Result<Seq<char>, SerdeAsn1DerError> {
    match object_spec(s, tag_is(Utf8String::TAG)) {
        Ok((p, _)) => decode_utf8_string(p),
        Err(e) => Err(e),
    }
}

pub open spec fn unit_outcome(s: DeState) -> Result<(), SerdeAsn1DerError> {
    match object_spec(s, tag_is(Null::TAG)) {
        Ok((p, _)) => decode_null(p),
        Err(e) => Err(e),
    }
}

/// `r` holds the decoded integer `d` where it fits `T`.
pub open spec fn uint_result<T: UInt>(r: Result<T, SerdeAsn1DerError>, d: Result<nat, SerdeAsn1DerError>) -> bool {
    match d {
        Ok(v) => (v <= T::max_nat() ==> (match r {
            Ok(x) => x.nat_value() == v,
            Err(_) => false,
        })) && (v > T::max_nat() ==> r == Err::<T, SerdeAsn1DerError>(
            SerdeAsn1DerError::UnsupportedValue,
        )),
        Err(e) => r == Err::<T, SerdeAsn1DerError>(e),
    }
}

/// `r` holds the bytes that `d` gives.
pub open spec fn bytes_result(r: Result<Vec<u8>, SerdeAsn1DerError>, d: Result<(Seq<u8>, nat), SerdeAsn1DerError>) -> bool {
    match d {
        Ok((p, _)) => match r {
            Ok(v) => v@ == p,
            Err(_) => false,
        },
        Err(e) => r == Err::<Vec<u8>, SerdeAsn1DerError>(e),
    }
}

/// The header of a sequence or set after the armed wrapper: its tag, its
/// declared length and the position after the header.
pub open spec fn seq_header_spec(s: DeState) -> Result<(u8, nat, nat), SerdeAsn1DerError> {
    match decapsulated_pos(s) {
        Ok(p) => {
            let r = s.data.subrange(p as int, s.data.len() as int);
            if r.len() == 0 {
                Err(SerdeAsn1DerError::TruncatedData)
            } else {
                match parse_length(r.drop_first()) {
                    Ok((l, used)) => Ok((r[0], l, p + 1 + used)),
                    Err(e) => Err(e),
                }
            }
        },
        Err(e) => Err(e),
    }
}

/// A lazily read sequence: it counts the bytes that its elements take
/// against its declared length.
pub struct Sequence {
    len: usize,
    mark: usize,
}

impl Sequence {
    pub const TAG: u8 = 0x30;

    /// The declared bytes not yet taken by elements.
    pub closed spec fn remaining_spec(&self) -> nat {
        self.len as nat
    }

    /// The decoder position up to which elements have been counted.
    pub closed spec fn mark_spec(&self) -> nat {
        self.mark as nat
    }

    /// Starts counting `len` bytes of elements from the decoder's position.
    pub fn deserialize_lazy(de: &Deserializer, len: usize) -> (r: Sequence)
        ensures
            r.remaining_spec() == len,
            r.mark_spec() == de@.pos,
    {
        Sequence { len, mark: de.pos() }
    }

    pub fn remaining(&self) -> (r: usize)
        ensures
            r == self.remaining_spec(),
    {
        self.len
    }

    /// Counts what was consumed since the last call and tells whether
    /// another element follows. It fails where the elements took more bytes
    /// than were declared.
    pub fn next_element(&mut self, de: &Deserializer) -> (r: Result<bool, SerdeAsn1DerError>)
        ensures
            de@.pos < old(self).mark_spec() ==> r == Err::<bool, SerdeAsn1DerError>(
                SerdeAsn1DerError::InvalidData,
            ),
            de@.pos >= old(self).mark_spec() ==> {
                let used = de@.pos - old(self).mark_spec();
                if used > old(self).remaining_spec() {
                    r == Err::<bool, SerdeAsn1DerError>(SerdeAsn1DerError::InvalidData)
                } else {
                    &&& final(self).remaining_spec() == old(self).remaining_spec() - used
                    &&& final(self).mark_spec() == de@.pos
                    &&& r == Ok::<bool, SerdeAsn1DerError>(final(self).remaining_spec() != 0)
                }
            },
    {
        let now = de.pos();
        if now < self.mark {
            return Err(SerdeAsn1DerError::InvalidData);
        }
        let used = now - self.mark;
        if used > self.len {
            return Err(SerdeAsn1DerError::InvalidData);
        }
        self.len = self.len - used;
        self.mark = now;
        Ok(self.len != 0)
    }

    /// Checks that the elements took exactly the declared length.
    pub fn end(&mut self, de: &Deserializer) -> (r: Result<(), SerdeAsn1DerError>)
        ensures
            r is Ok <==> de@.pos >= old(self).mark_spec() && de@.pos - old(self).mark_spec()
                == old(self).remaining_spec(),
            r is Err ==> r == Err::<(), SerdeAsn1DerError>(SerdeAsn1DerError::InvalidData),
    {
        match self.next_element(de) {
            Ok(false) => Ok(()),
            _ => Err(SerdeAsn1DerError::InvalidData),
        }
    }
}

/// What the self-describing read found.
pub enum AnyValue {
    Bool(bool),
    Integer(u128),
    Null,
    OctetString(Vec<u8>),
    Sequence(Sequence),
    Utf8String(String),
    ObjectIdentifier(Vec<u8>),
    BitString(Vec<u8>),
    Date(Vec<u8>),
    /// A wrapped value: the wrapper is armed and the value is read next.
    Tagged(Asn1Name),
}

/// A DER decoder over a byte source.
pub struct Deserializer {
    reader: PeekableReader,
    encapsulated: bool,
    encapsulator_tag: u8,
}

impl View for Deserializer {
    type V = DeState;

    closed spec fn view(&self) -> DeState {
        DeState {
            data: self.reader.data(),
            pos: self.reader.position(),
            armed: self.encapsulated,
            wtag: self.encapsulator_tag,
        }
    }
}

impl Deserializer {
    pub closed spec fn wf(&self) -> bool {
        self.reader.wf()
    }

    /// Creates a decoder over `bytes`.
    pub fn new_from_bytes(bytes: &[u8]) -> (r: Self)
        ensures
            r.wf(),
            r@.data == bytes@,
            r@.pos == 0,
            !r@.armed,
    {
        let mut v: Vec<u8> = Vec::new();
        crate::stream::append_bytes(&mut v, bytes);
        proof {
            assert(v@ =~= bytes@);
        }
        Self::new_from_reader(PeekableReader::new(v))
    }

    /// Creates a decoder that reads from `reader`.
    pub fn new_from_reader(reader: PeekableReader) -> (r: Self)
        requires
            reader.wf(),
        ensures
            r.wf(),
            r@.data == reader.data(),
            r@.pos == reader.position(),
            !r@.armed,
    {
        Deserializer { reader, encapsulated: false, encapsulator_tag: BIT_STRING_TAG }
    }

    /// The number of bytes consumed so far.
    pub fn pos(&self) -> (r: usize)
        ensures
            r == self@.pos,
    {
        self.reader.pos()
    }

    /// The tag of the next object, looking through an armed wrapper. A
    /// wrapper tag that is not there disarms the wrapper.
    fn peek_object(&mut self) -> (r: Result<u8, SerdeAsn1DerError>)
        requires
            old(self).wf(),
        ensures
            final(self).wf(),
            final(self)@.data == old(self)@.data,
            final(self)@.pos == old(self)@.pos,
            final(self)@.wtag == old(self)@.wtag,
            final(self)@.armed == (old(self)@.armed && !wrapper_mismatch(old(self)@)),
            r == peek_object_spec(old(self)@),
    {
        let ghost s = self@;
        let ghost rest = rest_of(s);
        if !self.encapsulated {
            return self.reader.peek_one();
        }
        let first = self.reader.peek_one()?;
        if first != self.encapsulator_tag {
            self.encapsulated = false;
            return Err(SerdeAsn1DerError::InvalidData);
        }
        let at = self.reader.pos() + 1;
        proof {
            assert(rest.drop_first() =~= s.data.subrange(at as int, s.data.len() as int));
        }
        let (_, used) = Length::deserialize_at(self.reader.bytes(), at)?;
        let header = if self.encapsulator_tag == BIT_STRING_TAG {
            used + 2
        } else {
            used + 1
        };
        self.reader.peek_at(header)
    }

    /// Arms the wrapper `tag` for the next object.
    fn encapsulate(&mut self, tag: u8)
        ensures
            final(self).reader == old(self).reader,
            final(self)@.armed,
            final(self)@.wtag == tag,
    {
        self.encapsulated = true;
        self.encapsulator_tag = tag;
    }

    /// Consumes the armed wrapper's header and disarms it.
    fn decapsulate(&mut self) -> (r: Result<(), SerdeAsn1DerError>)
        requires
            old(self).wf(),
        ensures
            final(self).wf(),
            final(self)@.data == old(self)@.data,
            !final(self)@.armed,
            match decapsulated_pos(old(self)@) {
                Ok(p) => r is Ok && final(self)@.pos == p,
                Err(e) => r == Err::<(), SerdeAsn1DerError>(e),
            },
    {
        if self.encapsulated {
            let ghost s = self@;
            let ghost rest = rest_of(s);
            self.encapsulated = false;
            let first = self.reader.peek_one()?;
            if first != self.encapsulator_tag {
                return Err(SerdeAsn1DerError::InvalidData);
            }
            let _ = self.reader.read_one();
            proof {
                assert(self.reader.rest() =~= rest.drop_first());
            }
            let _ = Length::deserialized(&mut self.reader)?;
            if self.encapsulator_tag == BIT_STRING_TAG {
                let _ = self.reader.read_one()?;
            }
        }
        Ok(())
    }

    /// Consumes the next object after the armed wrapper: its tag and payload.
    fn next_object(&mut self) -> (r: Result<(u8, Vec<u8>), SerdeAsn1DerError>)
        requires
            old(self).wf(),
        ensures
            final(self).wf(),
            final(self)@.data == old(self)@.data,
            !final(self)@.armed,
            match next_object_spec(old(self)@) {
                Ok((t, p, np)) => (match r {
                    Ok((t2, v)) => t2 == t && v@ == p,
                    Err(_) => false,
                }) && final(self)@.pos == np,
                Err(e) => r == Err::<(u8, Vec<u8>), SerdeAsn1DerError>(e),
            },
    {
        self.decapsulate()?;
        let ghost p = self@.pos;
        let ghost r = self@.data.subrange(p as int, self@.data.len() as int);
        let tag = self.reader.read_one()?;
        proof {
            assert(self.reader.rest() =~= r.drop_first());
        }
        let len = Length::deserialized(&mut self.reader)?;
        let ghost q = self@.pos;
        let payload = self.reader.read_exact(len)?;
        proof {
            assert(payload@ =~= r.subrange(q - p, q - p + len));
        }
        Ok((tag, payload))
    }

    /// Consumes the next object, which must carry `tag`; nothing is consumed
    /// where another tag is next.
    fn expect_object(&mut self, tag: u8) -> (r: Result<Vec<u8>, SerdeAsn1DerError>)
        requires
            old(self).wf(),
        ensures
            final(self).wf(),
            final(self)@.data == old(self)@.data,
            bytes_result(r, object_spec(old(self)@, tag_is(tag))),
            Self::moved(old(self)@, final(self)@, tag_is(tag)),
    {
        let t = self.peek_object()?;
        if t != tag {
            return Err(SerdeAsn1DerError::InvalidData);
        }
        let (_, payload) = self.next_object()?;
        Ok(payload)
    }

    /// How the state moves on a read of one object whose tag `accepted`
    /// holds of: to the position after it on success; where the tag is
    /// wrong or missing, nowhere.
    pub open spec fn moved(old: DeState, new: DeState, accepted: spec_fn(u8) -> bool) -> bool {
        &&& match object_spec(old, accepted) {
            Ok((_, np)) => new.pos == np && !new.armed,
            Err(_) => true,
        }
        &&& peek_object_spec(old) is Err ==> new.pos == old.pos && new.armed == (old.armed
            && !wrapper_mismatch(old)) && new.wtag == old.wtag
        &&& match peek_object_spec(old) {
            Ok(t) => !accepted(t) ==> new == old,
            Err(_) => true,
        }
    }
}

/// What the self-describing read gives where the next tag is `t`.
pub open spec fn any_outcome(s: DeState, t: u8, r: Result<AnyValue, SerdeAsn1DerError>) -> bool {
    if t == Boolean::TAG {
        match bool_outcome(s) {
            Ok(b) => r == Ok::<AnyValue, SerdeAsn1DerError>(AnyValue::Bool(b)),
            Err(e) => r == Err::<AnyValue, SerdeAsn1DerError>(e),
        }
    } else if t == UnsignedInteger::TAG {
        match uint_outcome(s) {
            Ok(v) => r == Ok::<AnyValue, SerdeAsn1DerError>(AnyValue::Integer(v as u128)),
            Err(e) => r == Err::<AnyValue, SerdeAsn1DerError>(e),
        }
    } else if t == Null::TAG {
        match unit_outcome(s) {
            Ok(_) => r == Ok::<AnyValue, SerdeAsn1DerError>(AnyValue::Null),
            Err(e) => r == Err::<AnyValue, SerdeAsn1DerError>(e),
        }
    } else if t == SEQUENCE_TAG {
        match seq_header_spec(s) {
            Ok((_, l, np)) => match r {
                Ok(AnyValue::Sequence(q)) => q.remaining_spec() == l && q.mark_spec() == np,
                _ => false,
            },
            Err(e) => r == Err::<AnyValue, SerdeAsn1DerError>(e),
        }
    } else if t == Utf8String::TAG {
        match string_outcome(s) {
            Ok(cs) => match r {
                Ok(AnyValue::Utf8String(x)) => x@ == cs,
                _ => false,
            },
            Err(e) => r == Err::<AnyValue, SerdeAsn1DerError>(e),
        }
    } else if t == OctetString::TAG || t == BIT_STRING_TAG || t == OBJECT_IDENTIFIER_TAG || t
        == UTC_TIME_TAG {
        match object_spec(s, tag_is(t)) {
            Ok((p, _)) => match r {
                Ok(AnyValue::OctetString(b)) => t == OctetString::TAG && b@ == p,
                Ok(AnyValue::BitString(b)) => t == BIT_STRING_TAG && b@ == p,
                Ok(AnyValue::ObjectIdentifier(b)) => t == OBJECT_IDENTIFIER_TAG && b@ == p,
                Ok(AnyValue::Date(b)) => t == UTC_TIME_TAG && b@ == p,
                _ => false,
            },
            Err(e) => r == Err::<AnyValue, SerdeAsn1DerError>(e),
        }
    } else if 0xa0 <= t <= 0xaf {
        r == Ok::<AnyValue, SerdeAsn1DerError>(
            AnyValue::Tagged(Asn1Name::ApplicationTag((t - 0xa0) as u8)),
        )
    } else {
        r == Err::<AnyValue, SerdeAsn1DerError>(SerdeAsn1DerError::InvalidData)
    }
}

/// How the self-describing read moves the decoder where the next tag is
/// `t`: past the object for a primitive, past the header for a sequence;
/// a context tag arms its wrapper and consumes nothing; an unknown tag
/// changes nothing.
pub open spec fn any_moved(old: DeState, new: DeState, t: u8) -> bool {
    if t == Boolean::TAG || t == UnsignedInteger::TAG || t == Null::TAG || t == Utf8String::TAG
        || t == OctetString::TAG || t == BIT_STRING_TAG || t == OBJECT_IDENTIFIER_TAG || t
        == UTC_TIME_TAG {
        Deserializer::moved(old, new, tag_is(t))
    } else if t == SEQUENCE_TAG {
        match seq_header_spec(old) {
            Ok((_, _, np)) => new.pos == np && !new.armed,
            Err(_) => true,
        }
    } else if 0xa0 <= t <= 0xaf {
        new.armed && new.wtag == t && new.pos == old.pos && new.data == old.data
    } else {
        new == old
    }
}

impl Deserializer {
    /// Reads a boolean.
    pub fn deserialize_bool(&mut self) -> (r: Result<bool, SerdeAsn1DerError>)
        requires
            old(self).wf(),
        ensures
            final(self).wf(),
            final(self)@.data == old(self)@.data,
            r == bool_outcome(old(self)@),
            Self::moved(old(self)@, final(self)@, tag_is(Boolean::TAG)),
    {
        let payload = self.expect_object(Boolean::TAG)?;
        Boolean::deserialize(payload.as_slice())
    }

    /// Reads a non-negative integer that fits `T`.
    pub fn deserialize_uint<T: UInt>(&mut self) -> (r: Result<T, SerdeAsn1DerError>)
        requires
            old(self).wf(),
        ensures
            final(self).wf(),
            final(self)@.data == old(self)@.data,
            uint_result(r, uint_outcome(old(self)@)),
            Self::moved(old(self)@, final(self)@, tag_is(UnsignedInteger::TAG)),
    {
        let payload = self.expect_object(UnsignedInteger::TAG)?;
        UnsignedInteger::deserialize(payload.as_slice())
    }

    pub fn deserialize_u8(&mut self) -> (r: Result<u8, SerdeAsn1DerError>)
        requires
            old(self).wf(),
        ensures
            final(self).wf(),
            final(self)@.data == old(self)@.data,
            uint_result(r, uint_outcome(old(self)@)),
            Self::moved(old(self)@, final(self)@, tag_is(UnsignedInteger::TAG)),
    {
        self.deserialize_uint()
    }

    pub fn deserialize_u16(&mut self) -> (r: Result<u16, SerdeAsn1DerError>)
        requires
            old(self).wf(),
        ensures
            final(self).wf(),
            final(self)@.data == old(self)@.data,
            uint_result(r, uint_outcome(old(self)@)),
            Self::moved(old(self)@, final(self)@, tag_is(UnsignedInteger::TAG)),
    {
        self.deserialize_uint()
    }

    pub fn deserialize_u32(&mut self) -> (r: Result<u32, SerdeAsn1DerError>)
        requires
            old(self).wf(),
        ensures
            final(self).wf(),
            final(self)@.data == old(self)@.data,
            uint_result(r, uint_outcome(old(self)@)),
            Self::moved(old(self)@, final(self)@, tag_is(UnsignedInteger::TAG)),
    {
        self.deserialize_uint()
    }

    pub fn deserialize_u64(&mut self) -> (r: Result<u64, SerdeAsn1DerError>)
        requires
            old(self).wf(),
        ensures
            final(self).wf(),
            final(self)@.data == old(self)@.data,
            uint_result(r, uint_outcome(old(self)@)),
            Self::moved(old(self)@, final(self)@, tag_is(UnsignedInteger::TAG)),
    {
        self.deserialize_uint()
    }

    pub fn deserialize_u128(&mut self) -> (r: Result<u128, SerdeAsn1DerError>)
        requires
            old(self).wf(),
        ensures
            final(self).wf(),
            final(self)@.data == old(self)@.data,
            uint_result(r, uint_outcome(old(self)@)),
            Self::moved(old(self)@, final(self)@, tag_is(UnsignedInteger::TAG)),
    {
        self.deserialize_uint()
    }

    /// Reads a UTF-8 string.
    pub fn deserialize_string(&mut self) -> (r: Result<String, SerdeAsn1DerError>)
        requires
            old(self).wf(),
        ensures
            final(self).wf(),
            final(self)@.data == old(self)@.data,
            match string_outcome(old(self)@) {
                Ok(cs) => match r {
                    Ok(x) => x@ == cs,
                    Err(_) => false,
                },
                Err(e) => r == Err::<String, SerdeAsn1DerError>(e),
            },
            Self::moved(old(self)@, final(self)@, tag_is(Utf8String::TAG)),
    {
        let payload = self.expect_object(Utf8String::TAG)?;
        let s = Utf8String::deserialize(payload.as_slice())?;
        Ok(s.to_owned())
    }

    /// Reads the first character of a UTF-8 string; an empty string has none.
    pub fn deserialize_char(&mut self) -> (r: Result<char, SerdeAsn1DerError>)
        requires
            old(self).wf(),
        ensures
            final(self).wf(),
            final(self)@.data == old(self)@.data,
            match string_outcome(old(self)@) {
                Ok(cs) => if cs.len() > 0 {
                    r == Ok::<char, SerdeAsn1DerError>(cs[0])
                } else {
                    r == Err::<char, SerdeAsn1DerError>(SerdeAsn1DerError::UnsupportedValue)
                },
                Err(e) => r == Err::<char, SerdeAsn1DerError>(e),
            },
            Self::moved(old(self)@, final(self)@, tag_is(Utf8String::TAG)),
    {
        let payload = self.expect_object(Utf8String::TAG)?;
        let s = Utf8String::deserialize(payload.as_slice())?;
        if s.unicode_len() == 0 {
            return Err(SerdeAsn1DerError::UnsupportedValue);
        }
        Ok(s.get_char(0))
    }

    /// Reads the payload of an octet string, or of an object identifier, bit
    /// string, integer or UTCTime, as it stands.
    pub fn deserialize_bytes(&mut self) -> (r: Result<Vec<u8>, SerdeAsn1DerError>)
        requires
            old(self).wf(),
        ensures
            final(self).wf(),
            final(self)@.data == old(self)@.data,
            bytes_result(r, object_spec(old(self)@, bytes_tags())),
            Self::moved(old(self)@, final(self)@, bytes_tags()),
    {
        let t = self.peek_object()?;
        if !(t == OctetString::TAG || t == OBJECT_IDENTIFIER_TAG || t == BIT_STRING_TAG || t
            == UnsignedInteger::TAG || t == UTC_TIME_TAG) {
            return Err(SerdeAsn1DerError::InvalidData);
        }
        let (_, payload) = self.next_object()?;
        Ok(payload)
    }

    /// Reads the payload of an octet string or a bit string as it stands.
    pub fn deserialize_byte_buf(&mut self) -> (r: Result<Vec<u8>, SerdeAsn1DerError>)
        requires
            old(self).wf(),
        ensures
            final(self).wf(),
            final(self)@.data == old(self)@.data,
            bytes_result(r, object_spec(old(self)@, byte_buf_tags())),
            Self::moved(old(self)@, final(self)@, byte_buf_tags()),
    {
        let t = self.peek_object()?;
        if !(t == OctetString::TAG || t == BIT_STRING_TAG) {
            return Err(SerdeAsn1DerError::InvalidData);
        }
        let (_, payload) = self.next_object()?;
        Ok(payload)
    }

    /// Reads a null.
    pub fn deserialize_unit(&mut self) -> (r: Result<(), SerdeAsn1DerError>)
        requires
            old(self).wf(),
        ensures
            final(self).wf(),
            final(self)@.data == old(self)@.data,
            r == unit_outcome(old(self)@),
            Self::moved(old(self)@, final(self)@, tag_is(Null::TAG)),
    {
        let payload = self.expect_object(Null::TAG)?;
        Null::deserialize(payload.as_slice())
    }

    /// Reads the contents bytes of an object identifier.
    pub fn deserialize_object_identifier(&mut self) -> (r: Result<ObjectIdentifierAsn1, SerdeAsn1DerError>)
        requires
            old(self).wf(),
        ensures
            final(self).wf(),
            final(self)@.data == old(self)@.data,
            match object_spec(old(self)@, tag_is(OBJECT_IDENTIFIER_TAG)) {
                Ok((p, _)) => match r {
                    Ok(id) => id.0@ == p,
                    Err(_) => false,
                },
                Err(e) => r == Err::<ObjectIdentifierAsn1, SerdeAsn1DerError>(e),
            },
            Self::moved(old(self)@, final(self)@, tag_is(OBJECT_IDENTIFIER_TAG)),
    {
        let payload = self.expect_object(OBJECT_IDENTIFIER_TAG)?;
        Ok(ObjectIdentifierAsn1(payload))
    }

    /// Reads the two's-complement bytes of an integer of any size; they must
    /// be minimal.
    pub fn deserialize_integer_asn1(&mut self) -> (r: Result<IntegerAsn1, SerdeAsn1DerError>)
        requires
            old(self).wf(),
        ensures
            final(self).wf(),
            final(self)@.data == old(self)@.data,
            match object_spec(old(self)@, tag_is(UnsignedInteger::TAG)) {
                Ok((p, _)) => if canonical_int(p) {
                    match r {
                        Ok(n) => n.0@ == p,
                        Err(_) => false,
                    }
                } else {
                    r == Err::<IntegerAsn1, SerdeAsn1DerError>(SerdeAsn1DerError::InvalidData)
                },
                Err(e) => r == Err::<IntegerAsn1, SerdeAsn1DerError>(e),
            },
            Self::moved(old(self)@, final(self)@, tag_is(UnsignedInteger::TAG)),
    {
        let payload = self.expect_object(UnsignedInteger::TAG)?;
        if !is_canonical_int(payload.as_slice()) {
            return Err(SerdeAsn1DerError::InvalidData);
        }
        Ok(IntegerAsn1(payload))
    }

    /// Reads the payload of a bit string.
    pub fn deserialize_bit_string(&mut self) -> (r: Result<BitStringAsn1, SerdeAsn1DerError>)
        requires
            old(self).wf(),
        ensures
            final(self).wf(),
            final(self)@.data == old(self)@.data,
            match object_spec(old(self)@, tag_is(BIT_STRING_TAG)) {
                Ok((p, _)) => match r {
                    Ok(b) => b.0@ == p,
                    Err(_) => false,
                },
                Err(e) => r == Err::<BitStringAsn1, SerdeAsn1DerError>(e),
            },
            Self::moved(old(self)@, final(self)@, tag_is(BIT_STRING_TAG)),
    {
        let payload = self.expect_object(BIT_STRING_TAG)?;
        Ok(BitStringAsn1(payload))
    }

    /// Reads a UTCTime.
    pub fn deserialize_date(&mut self) -> (r: Result<DateAsn1, SerdeAsn1DerError>)
        requires
            old(self).wf(),
        ensures
            final(self).wf(),
            final(self)@.data == old(self)@.data,
            match object_spec(old(self)@, tag_is(UTC_TIME_TAG)) {
                Ok((p, _)) => match crate::registry::utc_time_fields_of(p) {
                    Ok(t) => match crate::registry::timestamp_from_civil(t) {
                        Some(ts) => r == Ok::<DateAsn1, SerdeAsn1DerError>(DateAsn1(ts)),
                        None => r == Err::<DateAsn1, SerdeAsn1DerError>(
                            SerdeAsn1DerError::InvalidData,
                        ),
                    },
                    Err(e) => r == Err::<DateAsn1, SerdeAsn1DerError>(e),
                },
                Err(e) => r == Err::<DateAsn1, SerdeAsn1DerError>(e),
            },
            Self::moved(old(self)@, final(self)@, tag_is(UTC_TIME_TAG)),
    {
        let payload = self.expect_object(UTC_TIME_TAG)?;
        DateAsn1::from_utc_time(payload.as_slice())
    }

    /// Marks the next value with a registry name: a wrapper name arms the
    /// wrapper for the next object; any other name changes nothing.
    pub fn deserialize_newtype_struct(&mut self, name: Asn1Name)
        requires
            old(self).wf(),
        ensures
            final(self).wf(),
            final(self)@.data == old(self)@.data,
            final(self)@.pos == old(self)@.pos,
            is_encapsulator(name) ==> final(self)@.armed && name_tag(name) == Some(
                final(self)@.wtag,
            ),
            !is_encapsulator(name) ==> final(self)@ == old(self)@,
    {
        match name {
            Asn1Name::BitStringContainer => self.encapsulate(BIT_STRING_TAG),
            Asn1Name::ApplicationTag(i) => {
                if i < 16 {
                    self.encapsulate(0xa0 + i);
                }
            },
            _ => {},
        }
    }

    /// Reads the header of a sequence or a set, and returns the counter of
    /// its elements, which are read next. Nothing is consumed where the next
    /// tag is another.
    pub fn deserialize_seq(&mut self) -> (r: Result<Sequence, SerdeAsn1DerError>)
        requires
            old(self).wf(),
        ensures
            final(self).wf(),
            final(self)@.data == old(self)@.data,
            match peek_object_spec(old(self)@) {
                Ok(t) => if t == SEQUENCE_TAG || t == SET_TAG {
                    match seq_header_spec(old(self)@) {
                        Ok((_, l, np)) => final(self)@.pos == np && !final(self)@.armed && match r {
                            Ok(q) => q.remaining_spec() == l && q.mark_spec() == np,
                            Err(_) => false,
                        },
                        Err(e) => r is Err && r == Err::<Sequence, SerdeAsn1DerError>(e),
                    }
                } else {
                    r is Err && r == Err::<Sequence, SerdeAsn1DerError>(
                        SerdeAsn1DerError::InvalidData,
                    ) && final(self)@ == old(self)@
                },
                Err(e) => r is Err && r == Err::<Sequence, SerdeAsn1DerError>(e) && final(self)@.pos
                    == old(self)@.pos && final(self)@.armed == (old(self)@.armed
                    && !wrapper_mismatch(old(self)@)),
            },
    {
        let t = self.peek_object()?;
        if t != SEQUENCE_TAG && t != SET_TAG {
            return Err(SerdeAsn1DerError::InvalidData);
        }
        self.decapsulate()?;
        let ghost p = self@.pos;
        let ghost rr = self@.data.subrange(p as int, self@.data.len() as int);
        let _ = self.reader.read_one()?;
        proof {
            assert(self.reader.rest() =~= rr.drop_first());
        }
        let len = Length::deserialized(&mut self.reader)?;
        Ok(Sequence::deserialize_lazy(&*self, len))
    }

    /// Skips the next object, whatever its tag.
    pub fn deserialize_ignored_any(&mut self) -> (r: Result<(), SerdeAsn1DerError>)
        requires
            old(self).wf(),
        ensures
            final(self).wf(),
            final(self)@.data == old(self)@.data,
            final(self)@.armed == old(self)@.armed,
            match parse_tlv(rest_of(old(self)@)) {
                Ok((_, _, n)) => r is Ok && final(self)@.pos == old(self)@.pos + n,
                Err(e) => r == Err::<(), SerdeAsn1DerError>(e),
            },
    {
        let ghost rr = rest_of(self@);
        let _ = self.reader.read_one()?;
        proof {
            assert(self.reader.rest() =~= rr.drop_first());
        }
        let len = Length::deserialized(&mut self.reader)?;
        self.reader.skip(len)
    }

    /// Reads the next value, its type told by its tag alone. A context tag
    /// arms its wrapper and is returned as such; the value inside is read by
    /// the next call.
    pub fn deserialize_any(&mut self) -> (r: Result<AnyValue, SerdeAsn1DerError>)
        requires
            old(self).wf(),
        ensures
            final(self).wf(),
            final(self)@.data == old(self)@.data,
            match peek_object_spec(old(self)@) {
                Ok(t) => any_outcome(old(self)@, t, r) && any_moved(old(self)@, final(self)@, t),
                Err(e) => r is Err && r == Err::<AnyValue, SerdeAsn1DerError>(e) && final(self)@.pos
                    == old(self)@.pos && final(self)@.armed == (old(self)@.armed
                    && !wrapper_mismatch(old(self)@)),
            },
    {
        let t = self.peek_object()?;
        if t == Boolean::TAG {
            Ok(AnyValue::Bool(self.deserialize_bool()?))
        } else if t == UnsignedInteger::TAG {
            proof {
                if let Ok((p, _)) = object_spec(self@, tag_is(UnsignedInteger::TAG)) {
                    lemma_decode_uint_bound(p);
                }
            }
            Ok(AnyValue::Integer(self.deserialize_u128()?))
        } else if t == Null::TAG {
            self.deserialize_unit()?;
            Ok(AnyValue::Null)
        } else if t == SEQUENCE_TAG {
            Ok(AnyValue::Sequence(self.deserialize_seq()?))
        } else if t == Utf8String::TAG {
            Ok(AnyValue::Utf8String(self.deserialize_string()?))
        } else if t == OctetString::TAG {
            Ok(AnyValue::OctetString(self.expect_object(t)?))
        } else if t == BIT_STRING_TAG {
            Ok(AnyValue::BitString(self.expect_object(t)?))
        } else if t == OBJECT_IDENTIFIER_TAG {
            Ok(AnyValue::ObjectIdentifier(self.expect_object(t)?))
        } else if t == UTC_TIME_TAG {
            Ok(AnyValue::Date(self.expect_object(t)?))
        } else {
            match Asn1Name::from_context_tag(t) {
                Some(name) => {
                    self.deserialize_newtype_struct(name);
                    Ok(AnyValue::Tagged(name))
                },
                None => Err(SerdeAsn1DerError::InvalidData),
            }
        }
    }
}

} // verus!
