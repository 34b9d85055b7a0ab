use serde_asn1_der::{Deserializer, ObjectIdentifierAsn1, SerdeAsn1DerError, Serializer};

// OCSPRequest ::= SEQUENCE { tbsRequest TBSRequest }
// TBSRequest  ::= SEQUENCE { requestList SEQUENCE OF Request }
// Request     ::= SEQUENCE { reqCert CertID }
// CertID      ::= SEQUENCE { hashAlgorithm AlgorithmIdentifier,
//                            issuerNameHash OCTET STRING, issuerKeyHash OCTET STRING,
//                            serialNumber INTEGER }
// AlgorithmIdentifier ::= SEQUENCE { algorithm OBJECT IDENTIFIER, parameters NULL }

#[derive(Debug, PartialEq)]
struct CertID {
    algorithm: ObjectIdentifierAsn1,
    issuer_name_hash: Vec<u8>,
    issuer_key_hash: Vec<u8>,
    serial_number: u32,
}

fn encode_request(cert: &CertID) -> Result<Vec<u8>, SerdeAsn1DerError> {
    let mut ser = Serializer::new();
    let mut ocsp_request = ser.serialize_seq();
    let mut tbs_request = ocsp_request.elements.serialize_seq();
    let mut request_list = tbs_request.elements.serialize_seq();
    let mut request = request_list.elements.serialize_seq();
    let mut cert_id = request.elements.serialize_seq();
    let mut algorithm = cert_id.elements.serialize_seq();
    algorithm.elements.serialize_object_identifier(&cert.algorithm)?;
    algorithm.elements.serialize_unit()?;
    algorithm.finalize(&mut cert_id.elements)?;
    cert_id.elements.serialize_bytes(&cert.issuer_name_hash)?;
    cert_id.elements.serialize_bytes(&cert.issuer_key_hash)?;
    cert_id.elements.serialize_u32(cert.serial_number)?;
    cert_id.finalize(&mut request.elements)?;
    request.finalize(&mut request_list.elements)?;
    request_list.finalize(&mut tbs_request.elements)?;
    tbs_request.finalize(&mut ocsp_request.elements)?;
    ocsp_request.finalize(&mut ser)?;
    Ok(ser.into_inner())
}

fn decode_request(bytes: &[u8]) -> Result<Vec<CertID>, SerdeAsn1DerError> {
    let mut de = Deserializer::new_from_bytes(bytes);
    let mut ocsp_request = de.deserialize_seq()?;
    let mut tbs_request = de.deserialize_seq()?;
    let mut request_list = de.deserialize_seq()?;
    let mut certs = Vec::new();
    while request_list.next_element(&de)? {
        let mut request = de.deserialize_seq()?;
        let mut cert_id = de.deserialize_seq()?;
        let mut algorithm = de.deserialize_seq()?;
        let oid = de.deserialize_object_identifier()?;
        de.deserialize_unit()?;
        algorithm.end(&de)?;
        let issuer_name_hash = de.deserialize_bytes()?;
        let issuer_key_hash = de.deserialize_bytes()?;
        let serial_number = de.deserialize_u32()?;
        cert_id.end(&de)?;
        request.end(&de)?;
        certs.push(CertID { algorithm: oid, issuer_name_hash, issuer_key_hash, serial_number });
    }
    tbs_request.end(&de)?;
    ocsp_request.end(&de)?;
    Ok(certs)
}

#[test]
fn ocsp_request() {
    let encoded_ocsp_request = base64::decode(
        "MEIwQDA+MDwwOjAJBgUrDgMCGgUABBT4cyABkyiCIhU4J\
         pmIBewdDnn8ZgQUbyBZ44kgy35o7xW5BMzM8FTvyTwCAQE=",
    )
    .expect("invalid base64");

    let sha1_oid = ObjectIdentifierAsn1::from_dotted("1.3.14.3.2.26").unwrap();
    let cert = CertID {
        algorithm: sha1_oid,
        issuer_name_hash: vec![
            0xf8, 0x73, 0x20, 0x01, 0x93, 0x28, 0x82, 0x22, 0x15, 0x38, 0x26, 0x99, 0x88, 0x05,
            0xec, 0x1d, 0x0e, 0x79, 0xfc, 0x66,
        ],
        issuer_key_hash: vec![
            0x6f, 0x20, 0x59, 0xe3, 0x89, 0x20, 0xcb, 0x7e, 0x68, 0xef, 0x15, 0xb9, 0x04, 0xcc,
            0xcc, 0xf0, 0x54, 0xef, 0xc9, 0x3c,
        ],
        serial_number: 1,
    };

    let serialized = encode_request(&cert).expect("failed serialization");
    assert_eq!(serialized, encoded_ocsp_request);

    let deserialized = decode_request(&encoded_ocsp_request).expect("failed deserialization");
    assert_eq!(deserialized, vec![cert]);
}
