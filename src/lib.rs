//! A codec between typed values and their canonical ASN.1 DER encoding.
//!
//! The codec is split in layers: the length field, a peekable byte source,
//! the primitive value codecs, a registry of extended type tags, and the
//! driving decoder and encoder with their encapsulation and sequence framing.

pub mod error;
pub mod length;
pub mod reader;
pub mod stream;
pub mod primitive;
pub mod registry;
pub mod de;
pub mod ser;
pub mod laws;

pub use crate::de::{AnyValue, Deserializer};
pub use crate::error::SerdeAsn1DerError;
pub use crate::length::Length;
pub use crate::primitive::{Boolean, Null, OctetString, UInt, UnsignedInteger, Utf8String};
pub use crate::reader::PeekableReader;
pub use crate::stream::{ReadExt, WriteExt};
pub use crate::registry::{
    Asn1Name, BitStringAsn1, BitStringAsn1Container, DateAsn1, IntegerAsn1, ObjectIdentifierAsn1,
};
pub use crate::ser::Serializer;
