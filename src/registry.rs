use vstd::prelude::*;
use chrono::{Datelike, Timelike};
use crate::error::SerdeAsn1DerError;

verus! {

pub const BIT_STRING_TAG: u8 = 0x03;

pub const OBJECT_IDENTIFIER_TAG: u8 = 0x06;

pub const UTC_TIME_TAG: u8 = 0x17;

pub const SEQUENCE_TAG: u8 = 0x30;

pub const SET_TAG: u8 = 0x31;

pub const CONTEXT_TAG_FIRST: u8 = 0xa0;

pub const CONTEXT_TAG_LAST: u8 = 0xaf;

/// The extended types that a value can be marked with, each with its tag.
#[derive(Debug, Clone, Copy, PartialEq, Eq, Structural)]
pub enum Asn1Name {
    ObjectIdentifier,
    BitString,
    Integer,
    Date,
    SetOf,
    SequenceOf,
    /// A structure carried inside a bit string.
    BitStringContainer,
    /// A structure under one of the sixteen context tags, by number.
    ApplicationTag(u8),
}

/// The tag of each registered name; a context tag number above 15 has none.
pub open spec fn name_tag(n: Asn1Name) -> Option<u8> {
    match n {
        Asn1Name::ObjectIdentifier => Some(OBJECT_IDENTIFIER_TAG),
        Asn1Name::BitString => Some(BIT_STRING_TAG),
        Asn1Name::Integer => Some(0x02u8),
        Asn1Name::Date => Some(UTC_TIME_TAG),
        Asn1Name::SetOf => Some(SET_TAG),
        Asn1Name::SequenceOf => Some(SEQUENCE_TAG),
        Asn1Name::BitStringContainer => Some(BIT_STRING_TAG),
        Asn1Name::ApplicationTag(i) => if i < 16 {
            Some((CONTEXT_TAG_FIRST + i) as u8)
        } else {
            None
        },
    }
}

/// Names whose value is a whole DER object wrapped in another header.
pub open spec fn is_encapsulator(n: Asn1Name) -> bool {
    match n {
        Asn1Name::BitStringContainer => true,
        Asn1Name::ApplicationTag(i) => i < 16,
        _ => false,
    }
}

/// Names that change the tag of the next byte string.
pub open spec fn is_bytes_name(n: Asn1Name) -> bool {
    match n {
        Asn1Name::ObjectIdentifier | Asn1Name::BitString | Asn1Name::Integer | Asn1Name::Date => true,
        _ => false,
    }
}

/// Names that change the tag of the next sequence.
pub open spec fn is_collection_name(n: Asn1Name) -> bool {
    match n {
        Asn1Name::SetOf | Asn1Name::SequenceOf => true,
        _ => false,
    }
}

impl Asn1Name {
    /// The tag registered for this name.
    pub fn tag(&self) -> (r: Option<u8>)
        ensures
            r == name_tag(*self),
    {
        match self {
            Asn1Name::ObjectIdentifier => Some(OBJECT_IDENTIFIER_TAG),
            Asn1Name::BitString => Some(BIT_STRING_TAG),
            Asn1Name::Integer => Some(0x02),
            Asn1Name::Date => Some(UTC_TIME_TAG),
            Asn1Name::SetOf => Some(SET_TAG),
            Asn1Name::SequenceOf => Some(SEQUENCE_TAG),
            Asn1Name::BitStringContainer => Some(BIT_STRING_TAG),
            Asn1Name::ApplicationTag(i) => if *i < 16 {
                Some(CONTEXT_TAG_FIRST + *i)
            } else {
                None
            },
        }
    }

    /// The name of a context tag, if `tag` is one.
    pub fn from_context_tag(tag: u8) -> (r: Option<Asn1Name>)
        ensures
            CONTEXT_TAG_FIRST <= tag <= CONTEXT_TAG_LAST ==> r == Some(
                Asn1Name::ApplicationTag((tag - CONTEXT_TAG_FIRST) as u8),
            ),
            !(CONTEXT_TAG_FIRST <= tag <= CONTEXT_TAG_LAST) ==> r is None,
            r matches Some(n) ==> is_encapsulator(n) && name_tag(n) == Some(tag),
    {
        if CONTEXT_TAG_FIRST <= tag && tag <= CONTEXT_TAG_LAST {
            Some(Asn1Name::ApplicationTag(tag - CONTEXT_TAG_FIRST))
        } else {
            None
        }
    }
}

/// A value carried inside a bit string, as a whole DER object.
pub struct BitStringAsn1Container<Encapsulated>(pub Encapsulated);

impl<Encapsulated> BitStringAsn1Container<Encapsulated> {
    pub const TAG: u8 = 0x03;

    /// The registry name under which the value is written.
    pub fn name() -> (r: Asn1Name)
        ensures
            r == Asn1Name::BitStringContainer,
    {
        Asn1Name::BitStringContainer
    }
}

/// An integer of any size, as its two's-complement big-endian bytes. The
/// codec reads and writes only minimal ones (see `canonical_int`).
#[derive(Debug, PartialEq, Eq)]
pub struct IntegerAsn1(pub Vec<u8>);

/// An object identifier, as the contents bytes of its DER encoding.
#[derive(Debug, PartialEq, Eq)]
pub struct ObjectIdentifierAsn1(pub Vec<u8>);

/// A bit string, as its payload: the unused-bits byte, then the bits.
#[derive(Debug, PartialEq, Eq)]
pub struct BitStringAsn1(pub Vec<u8>);

/// A point in time as seconds since the Unix epoch, written as a UTCTime.
#[derive(Debug, Clone, Copy, PartialEq, Eq, Structural)]
pub struct DateAsn1(pub i64);

/// What `oid` makes of an identifier in dotted text: its contents bytes, or
/// nothing where the text is no identifier.
pub uninterp spec fn oid_contents_of(dotted: Seq<char>) -> Option<Seq<u8>>;

/// Relies on `oid::ObjectIdentifier::try_from(&str)` and the crate's
/// conversion of the identifier into its contents bytes.
#[verifier::external_body]
fn oid_contents_from_dotted(dotted: &str) -> (r: Option<Vec<u8>>)
    ensures
        match r {
            Some(b) => oid_contents_of(dotted@) == Some(b@),
            None => oid_contents_of(dotted@) is None,
        },
{
    match oid::ObjectIdentifier::try_from(dotted) {
        Ok(id) => Some(id.into()),
        Err(_) => None,
    }
}

impl ObjectIdentifierAsn1 {
    pub const TAG: u8 = 0x06;

    /// The identifier written in dotted text, such as `1.3.14.3.2.26`.
    pub fn from_dotted(dotted: &str) -> (r: Result<ObjectIdentifierAsn1, SerdeAsn1DerError>)
        ensures
            match oid_contents_of(dotted@) {
                Some(b) => match r {
                    Ok(id) => id.0@ == b,
                    Err(_) => false,
                },
                None => r == Err::<ObjectIdentifierAsn1, SerdeAsn1DerError>(
                    SerdeAsn1DerError::InvalidData,
                ),
            },
    {
        match oid_contents_from_dotted(dotted) {
            Some(b) => Ok(ObjectIdentifierAsn1(b)),
            None => Err(SerdeAsn1DerError::InvalidData),
        }
    }
}

/// The calendar fields of a time: year, month, day, hour, minute, second.
pub type CivilTime = (i32, u32, u32, u32, u32, u32);

/// What `chrono` makes of a Unix timestamp in UTC, where it is in its range.
pub uninterp spec fn civil_from_timestamp(ts: i64) -> Option<CivilTime>;

/// What `chrono` makes of calendar fields in UTC as a Unix timestamp, where
/// they name a valid time.
pub uninterp spec fn timestamp_from_civil(t: CivilTime) -> Option<i64>;

/// Relies on `chrono::DateTime::from_timestamp` and its calendar accessors,
/// which give a month in 1..=12, a day in 1..=31, an hour below 24 and a
/// minute and a second below 60.
#[verifier::external_body]
fn civil_of_timestamp(ts: i64) -> (r: Option<CivilTime>)
    ensures
        r == civil_from_timestamp(ts),
        r matches Some(t) ==> 1 <= t.1 <= 12 && 1 <= t.2 <= 31 && t.3 < 24 && t.4 < 60 && t.5 < 60,
{
    match chrono::DateTime::from_timestamp(ts, 0) {
        Some(dt) => Some((dt.year(), dt.month(), dt.day(), dt.hour(), dt.minute(), dt.second())),
        None => None,
    }
}

/// Relies on `chrono::NaiveDate::from_ymd_opt`, `NaiveDate::and_hms_opt` and
/// the timestamp of that time in UTC.
#[verifier::external_body]
fn timestamp_of_civil(t: CivilTime) -> (r: Option<i64>)
    ensures
        r == timestamp_from_civil(t),
{
    match chrono::NaiveDate::from_ymd_opt(t.0, t.1, t.2) {
        Some(d) => match d.and_hms_opt(t.3, t.4, t.5) {
            Some(dt) => Some(dt.and_utc().timestamp()),
            None => None,
        },
        None => None,
    }
}

/// The two ASCII digits of `v`.
pub open spec fn two_digits(v: u32) -> Seq<u8> {
    seq![(0x30 + v / 10) as u8, (0x30 + v % 10) as u8]
}

/// The UTCTime text `YYMMDDhhmmssZ` of a time between 1950 and 2049.
pub open spec fn utc_time_text(t: CivilTime) -> Result<Seq<u8>, SerdeAsn1DerError> {
    if 1950 <= t.0 <= 2049 && t.1 < 100 && t.2 < 100 && t.3 < 100 && t.4 < 100 && t.5 < 100 {
        Ok(two_digits((t.0 % 100) as u32) + two_digits(t.1) + two_digits(t.2) + two_digits(t.3)
            + two_digits(t.4) + two_digits(t.5) + seq![0x5au8])
    } else {
        Err(SerdeAsn1DerError::UnsupportedValue)
    }
}

/// The number of the digit in the low half of `b`.
pub open spec fn digit_value(b: u8) -> u32 {
    (b % 16) as u32
}

pub open spec fn pair_value(v: Seq<u8>, i: int) -> u32 {
    (digit_value(v[i]) * 10 + digit_value(v[i + 1])) as u32
}

/// The calendar fields of a 13-byte UTCTime; a two-digit year from 50 up is
/// in the 1900s, below it in the 2000s.
pub open spec fn utc_time_fields_of(v: Seq<u8>) -> Result<CivilTime, SerdeAsn1DerError> {
    if v.len() != 13 {
        Err(SerdeAsn1DerError::InvalidData)
    } else {
        let yy = pair_value(v, 0);
        let year = if yy >= 50 {
            1900 + yy
        } else {
            2000 + yy
        };
        Ok(
            (
                year as i32,
                pair_value(v, 2),
                pair_value(v, 4),
                pair_value(v, 6),
                pair_value(v, 8),
                pair_value(v, 10),
            ),
        )
    }
}

fn push_two_digits(out: &mut Vec<u8>, v: u32)
    requires
        v < 100,
    ensures
        final(out)@ == old(out)@ + two_digits(v),
{
    out.push((0x30 + v / 10) as u8);
    out.push((0x30 + v % 10) as u8);
    proof {
        assert(final(out)@ =~= old(out)@ + two_digits(v));
    }
}

/// Writes the UTCTime text of calendar fields.
pub fn utc_time_bytes(t: CivilTime) -> (r: Result<Vec<u8>, SerdeAsn1DerError>)
    ensures
        match utc_time_text(t) {
            Ok(b) => match r {
                Ok(v) => v@ == b,
                Err(_) => false,
            },
            Err(e) => r == Err::<Vec<u8>, SerdeAsn1DerError>(e),
        },
{
    if !(1950 <= t.0 && t.0 <= 2049 && t.1 < 100 && t.2 < 100 && t.3 < 100 && t.4 < 100 && t.5
        < 100) {
        return Err(SerdeAsn1DerError::UnsupportedValue);
    }
    let mut out: Vec<u8> = Vec::new();
    push_two_digits(&mut out, (t.0 % 100) as u32);
    push_two_digits(&mut out, t.1);
    push_two_digits(&mut out, t.2);
    push_two_digits(&mut out, t.3);
    push_two_digits(&mut out, t.4);
    push_two_digits(&mut out, t.5);
    out.push(0x5a);
    proof {
        let expected = two_digits((t.0 % 100) as u32) + two_digits(t.1) + two_digits(t.2)
            + two_digits(t.3) + two_digits(t.4) + two_digits(t.5) + seq![0x5au8];
        assert(out@ =~= expected);
    }
    Ok(out)
}

fn read_pair(v: &[u8], i: usize) -> (r: u32)
    requires
        i + 1 < v@.len(),
    ensures
        r == pair_value(v@, i as int),
{
    (v[i] % 16) as u32 * 10 + (v[i + 1] % 16) as u32
}

/// Reads the calendar fields of a UTCTime payload, which must be 13 bytes.
pub fn utc_time_fields(v: &[u8]) -> (r: Result<CivilTime, SerdeAsn1DerError>)
    ensures
        r == utc_time_fields_of(v@),
{
    if v.len() != 13 {
        return Err(SerdeAsn1DerError::InvalidData);
    }
    let yy = read_pair(v, 0);
    let year: i32 = if yy >= 50 {
        1900 + yy as i32
    } else {
        2000 + yy as i32
    };
    Ok((year, read_pair(v, 2), read_pair(v, 4), read_pair(v, 6), read_pair(v, 8), read_pair(v, 10)))
}

impl DateAsn1 {
    pub const TAG: u8 = 0x17;

    /// The UTCTime text of this time; it fails where the time lies outside
    /// 1950 to 2049, or outside the calendar's range.
    pub fn to_utc_time(&self) -> (r: Result<Vec<u8>, SerdeAsn1DerError>)
        ensures
            match civil_from_timestamp(self.0) {
                Some(t) => match utc_time_text(t) {
                    Ok(b) => match r {
                        Ok(v) => v@ == b,
                        Err(_) => false,
                    },
                    Err(e) => r == Err::<Vec<u8>, SerdeAsn1DerError>(e),
                },
                None => r == Err::<Vec<u8>, SerdeAsn1DerError>(SerdeAsn1DerError::UnsupportedValue),
            },
    {
        match civil_of_timestamp(self.0) {
            Some(t) => utc_time_bytes(t),
            None => Err(SerdeAsn1DerError::UnsupportedValue),
        }
    }

    /// The time that a UTCTime payload names; it fails where the payload is
    /// not 13 bytes or names no valid time.
    pub fn from_utc_time(v: &[u8]) -> (r: Result<DateAsn1, SerdeAsn1DerError>)
        ensures
            match utc_time_fields_of(v@) {
                Ok(t) => match timestamp_from_civil(t) {
                    Some(ts) => r == Ok::<DateAsn1, SerdeAsn1DerError>(DateAsn1(ts)),
                    None => r == Err::<DateAsn1, SerdeAsn1DerError>(SerdeAsn1DerError::InvalidData),
                },
                Err(e) => r == Err::<DateAsn1, SerdeAsn1DerError>(e),
            },
    {
        let t = utc_time_fields(v)?;
        match timestamp_of_civil(t) {
            Some(ts) => Ok(DateAsn1(ts)),
            None => Err(SerdeAsn1DerError::InvalidData),
        }
    }
}

} // verus!
