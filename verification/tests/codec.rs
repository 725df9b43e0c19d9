use stun_codec::Attribute;
use stun_codec::BindRequest;
use stun_codec::ChangeRequest;
use stun_codec::DecodeError;
use stun_codec::MandatoryField;
use stun_codec::Request;
use stun_codec::Response;
use stun_codec::SocketAddr;
use stun_codec::StunCodec;

fn v4(ip0: u8, ip1: u8, ip2: u8, ip3: u8, port: u16) -> SocketAddr {
    SocketAddr::V4 { ip0, ip1, ip2, ip3, port }
}

fn put_u16(buf: &mut Vec<u8>, x: u16) {
    buf.push((x >> 8) as u8);
    buf.push((x & 0xff) as u8);
}

fn put_u64(buf: &mut Vec<u8>, x: u64) {
    for i in 0..8 {
        buf.push(((x >> (56 - 8 * i)) & 0xff) as u8);
    }
}

/// A response header: type code, a zero length word (the decoder ignores
/// it), zero reserved half, correlator.
fn response_header(typ: u16, correlator: u64) -> Vec<u8> {
    let mut buf = Vec::new();
    put_u16(&mut buf, typ);
    put_u16(&mut buf, 0);
    put_u64(&mut buf, 0);
    put_u64(&mut buf, correlator);
    buf
}

fn put_address_attr(buf: &mut Vec<u8>, code: u16, ip: [u8; 4], port: u16) {
    put_u16(buf, code);
    put_u16(buf, 8);
    buf.push(0);
    buf.push(1);
    put_u16(buf, port);
    buf.extend_from_slice(&ip);
}

/// The three mandatory addresses of a well-formed binding response.
fn put_mandatory_addresses(buf: &mut Vec<u8>) {
    put_address_attr(buf, 0x0001, [10, 0, 0, 1], 1000);
    put_address_attr(buf, 0x0004, [10, 0, 0, 2], 2000);
    put_address_attr(buf, 0x0005, [10, 0, 0, 3], 3000);
}

fn decode(buf: &[u8]) -> Result<(u64, Response), DecodeError> {
    StunCodec::new().decode(&v4(0, 0, 0, 0, 0), buf)
}

#[test]
fn encode_address() {
    let mut buf = Vec::new();

    let attr = Attribute::ChangedAddress(v4(127, 0, 1, 2, 54321));
    attr.encode(&mut buf).unwrap();

    let expected = vec![0x00, 0x05, 0x00, 0x08, 0x00, 0x01, 0xd4, 0x31, 0x7f, 0x00, 0x01, 0x02];

    assert_eq!(expected, buf);
}

#[test]
fn encode_binding_request() {
    let req = BindRequest {
        response_address: None,
        change_request: Some(ChangeRequest::IpAndPort),
        username: Some(b"foo".to_vec()),
    };

    let addr = v4(0, 0, 0, 0, 0);
    let mut actual = Vec::new();
    let _ = StunCodec::new().encode((0x123456789, addr, Request::Bind(req)), &mut actual);

    let expected = vec![
        0x00, 0x01, 0x00, 0x10, // type, len
        0x00, 0x00, 0x00, 0x00, // transaction id
        0x00, 0x00, 0x00, 0x00, //  ...
        0x00, 0x00, 0x00, 0x01, //  ...
        0x23, 0x45, 0x67, 0x89, //  ...
        0x00, 0x03, 0x00, 0x04, // change request, len
        0x00, 0x00, 0x00, 0x60, //  ip and port
        0x00, 0x06, 0x00, 0x04, // username
        0x66, 0x6f, 0x6f, 0x00, //  "foo"
    ];

    assert_eq!(expected, actual);
}

#[test]
fn request_attributes_read_back() {
    let req = BindRequest {
        response_address: Some(v4(1, 2, 3, 4, 5)),
        change_request: Some(ChangeRequest::Ip),
        username: None,
    };
    let bytes = req.encode().unwrap();

    let (first, pos) = Attribute::read(&bytes, 0).unwrap().unwrap();
    match first {
        Attribute::ResponseAddress(a) => assert_eq!(a, v4(1, 2, 3, 4, 5)),
        _ => panic!("wrong first attribute"),
    }
    let (second, pos) = Attribute::read(&bytes, pos).unwrap().unwrap();
    match second {
        Attribute::ChangeRequest(c) => assert_eq!(c, ChangeRequest::Ip),
        _ => panic!("wrong second attribute"),
    }
    assert!(Attribute::read(&bytes, pos).unwrap().is_none());
}

#[test]
fn encode_rejects_other_family() {
    let mut buf = Vec::new();
    let r = Attribute::MappedAddress(SocketAddr::V6 { port: 80 }).encode(&mut buf);
    assert_eq!(r, Err(DecodeError::UnsupportedAddressFamily));
    assert!(buf.is_empty());
}

#[test]
fn read_address_rejects_other_family() {
    // family tag 2 instead of 1
    let record = vec![0x00, 0x02, 0x12, 0x34, 1, 2, 3, 4];
    let r = Attribute::read_address(&record, 0);
    assert_eq!(r, Err(DecodeError::UnsupportedAddressFamily));
}

#[test]
fn address_record_round_trip() {
    let a = v4(192, 168, 0, 7, 3478);
    let bytes = Attribute::encode_address(&a).unwrap();
    assert_eq!(bytes.len(), 8);
    let (back, end) = Attribute::read_address(&bytes, 0).unwrap();
    assert_eq!(back, a);
    assert_eq!(end, 8);
}

#[test]
fn username_padding_lengths() {
    for (n, padded) in [(1usize, 4usize), (3, 4), (4, 4), (5, 8), (8, 8)] {
        let mut buf = Vec::new();
        Attribute::Username(vec![0xab; n]).encode(&mut buf).unwrap();
        // type, length word holds the padded length
        assert_eq!(buf[2], (padded >> 8) as u8);
        assert_eq!(buf[3], (padded & 0xff) as u8);
        assert_eq!(buf.len(), 4 + padded);
        // value bytes, then zero padding
        for j in 0..n {
            assert_eq!(buf[4 + j], 0xab);
        }
        for j in n..padded {
            assert_eq!(buf[4 + j], 0x00);
        }
    }
}

#[test]
fn missing_mandatory_attribute() {
    let mut buf = response_header(0x0101, 7);
    // source and changed present, mapped missing
    put_address_attr(&mut buf, 0x0004, [10, 0, 0, 2], 2000);
    put_address_attr(&mut buf, 0x0005, [10, 0, 0, 3], 3000);
    assert_eq!(
        decode(&buf),
        Err(DecodeError::MissingMandatoryAttribute(MandatoryField::MappedAddress))
    );

    let mut buf = response_header(0x0101, 7);
    put_address_attr(&mut buf, 0x0001, [10, 0, 0, 1], 1000);
    put_address_attr(&mut buf, 0x0005, [10, 0, 0, 3], 3000);
    assert_eq!(
        decode(&buf),
        Err(DecodeError::MissingMandatoryAttribute(MandatoryField::SourceAddress))
    );

    let mut buf = response_header(0x0101, 7);
    put_address_attr(&mut buf, 0x0001, [10, 0, 0, 1], 1000);
    put_address_attr(&mut buf, 0x0004, [10, 0, 0, 2], 2000);
    assert_eq!(
        decode(&buf),
        Err(DecodeError::MissingMandatoryAttribute(MandatoryField::ChangedAddress))
    );
}

#[test]
fn unknown_optional_attribute_is_skipped() {
    let mut buf = response_header(0x0101, 9);
    put_mandatory_addresses(&mut buf);
    // appended unknown attribute, type code 0xffff (optional): skipped
    put_u16(&mut buf, 0xffff);
    put_u16(&mut buf, 3);
    buf.extend_from_slice(&[0xde, 0xad, 0xbe]);

    let (correlator, Response::Bind(resp)) = decode(&buf).unwrap();
    assert_eq!(correlator, 9);
    assert_eq!(resp.mapped_address, v4(10, 0, 0, 1, 1000));
    assert_eq!(resp.source_address, v4(10, 0, 0, 2, 2000));
    assert_eq!(resp.changed_address, v4(10, 0, 0, 3, 3000));
    assert_eq!(resp.reflected_from, None);
}

#[test]
fn unknown_mandatory_attribute_fails() {
    let mut buf = response_header(0x0101, 9);
    put_mandatory_addresses(&mut buf);
    // type code 0x000c: unrecognized but at or below the mandatory boundary
    put_u16(&mut buf, 0x000c);
    put_u16(&mut buf, 0);
    assert_eq!(decode(&buf), Err(DecodeError::UnknownMandatoryAttribute));
}

#[test]
fn duplicate_address_first_wins() {
    let mut buf = response_header(0x0101, 1);
    put_mandatory_addresses(&mut buf);
    // a second mapped address: silently ignored
    put_address_attr(&mut buf, 0x0001, [99, 99, 99, 99], 9999);
    let (_, Response::Bind(resp)) = decode(&buf).unwrap();
    assert_eq!(resp.mapped_address, v4(10, 0, 0, 1, 1000));
}

#[test]
fn reflected_from_is_optional() {
    let mut buf = response_header(0x0101, 1);
    put_mandatory_addresses(&mut buf);
    put_address_attr(&mut buf, 0x000b, [8, 8, 8, 8], 53);
    let (_, Response::Bind(resp)) = decode(&buf).unwrap();
    assert_eq!(resp.reflected_from, Some(v4(8, 8, 8, 8, 53)));
}

#[test]
fn nonzero_reserved_transaction_half() {
    let mut buf = Vec::new();
    put_u16(&mut buf, 0x0101);
    put_u16(&mut buf, 0);
    put_u64(&mut buf, 1); // reserved half must be zero
    put_u64(&mut buf, 42);
    put_mandatory_addresses(&mut buf);
    assert_eq!(decode(&buf), Err(DecodeError::MalformedTransactionId));
}

#[test]
fn unknown_message_type() {
    let mut buf = response_header(0x0777, 1);
    put_mandatory_addresses(&mut buf);
    assert_eq!(decode(&buf), Err(DecodeError::UnknownMessageType));
}

#[test]
fn unsupported_message_types() {
    for typ in [0x0111u16, 0x0102, 0x0112] {
        let buf = response_header(typ, 1);
        assert_eq!(decode(&buf), Err(DecodeError::UnsupportedMessageType));
    }
}

#[test]
fn truncated_header() {
    let buf = vec![0x01, 0x01, 0x00, 0x00, 0x00];
    assert_eq!(decode(&buf), Err(DecodeError::Truncated));
}

#[test]
fn truncated_attribute_body() {
    let mut buf = response_header(0x0101, 1);
    // a mapped-address attribute cut off inside its 8-byte record
    put_u16(&mut buf, 0x0001);
    put_u16(&mut buf, 8);
    buf.push(0);
    buf.push(1);
    assert_eq!(decode(&buf), Err(DecodeError::Truncated));
}

#[test]
fn invalid_change_request_flags() {
    // flag word 0x10 is none of the three defined patterns
    let record = vec![0x00, 0x03, 0x00, 0x04, 0x00, 0x00, 0x00, 0x10];
    let r = Attribute::read(&record, 0);
    assert!(matches!(r, Err(DecodeError::InvalidChangeRequest)));
}

#[test]
fn change_request_flags_read_back() {
    for (flag, expect) in [
        (0x20u8, ChangeRequest::Ip),
        (0x40, ChangeRequest::Port),
        (0x60, ChangeRequest::IpAndPort),
    ] {
        let record = vec![0x00, 0x03, 0x00, 0x04, 0x00, 0x00, 0x00, flag];
        let (attr, end) = Attribute::read(&record, 0).unwrap().unwrap();
        assert_eq!(end, 8);
        match attr {
            Attribute::ChangeRequest(c) => assert_eq!(c, expect),
            _ => panic!("wrong attribute"),
        }
    }
}

/// A response whose trailing message-integrity attribute holds the digest
/// of everything before the final 24 bytes.
fn integrity_response(correlator: u64) -> Vec<u8> {
    let mut buf = response_header(0x0101, correlator);
    put_mandatory_addresses(&mut buf);
    put_u16(&mut buf, 0x0008);
    put_u16(&mut buf, 20);
    buf.extend_from_slice(&[0u8; 20]);
    let covered = buf.len() - 24;
    let digest = ring::digest::digest(&ring::digest::SHA1_FOR_LEGACY_USE_ONLY, &buf[..covered]);
    let hash_at = buf.len() - 20;
    buf[hash_at..].copy_from_slice(digest.as_ref());
    buf
}

#[test]
fn integrity_match_succeeds() {
    let buf = integrity_response(11);
    let (correlator, Response::Bind(resp)) = decode(&buf).unwrap();
    assert_eq!(correlator, 11);
    assert_eq!(resp.mapped_address, v4(10, 0, 0, 1, 1000));
}

#[test]
fn integrity_mismatch_fails() {
    let mut buf = integrity_response(11);
    let last = buf.len() - 1;
    buf[last] ^= 0xff;
    assert_eq!(decode(&buf), Err(DecodeError::IntegrityViolation));
}

#[test]
fn default_bind_request_is_empty() {
    let req = BindRequest::default();
    assert!(req.response_address.is_none());
    assert!(req.change_request.is_none());
    assert!(req.username.is_none());
    assert_eq!(req.encode().unwrap(), Vec::<u8>::new());
}

#[test]
fn encode_all_fields_and_read_back() {
    let req = BindRequest {
        response_address: Some(v4(172, 16, 5, 9, 40000)),
        change_request: Some(ChangeRequest::Port),
        username: None,
    };
    let body = req.encode().unwrap();
    let mut buf = Vec::new();
    let dst = StunCodec::new().encode((0xdeadbeef, v4(9, 9, 9, 9, 99), Request::Bind(req)), &mut buf);
    assert_eq!(dst, v4(9, 9, 9, 9, 99));
    assert_eq!(buf.len(), 20 + body.len());
    assert_eq!(&buf[20..], &body[..]);
    // header: type 1, body length, zero half, correlator
    assert_eq!(&buf[..4], &[0x00, 0x01, 0x00, body.len() as u8]);
    assert_eq!(&buf[4..12], &[0u8; 8]);
    assert_eq!(&buf[12..20], &[0, 0, 0, 0, 0xde, 0xad, 0xbe, 0xef]);
}

#[test]
fn unknown_optional_overrunning_length_ends_stream() {
    // the unknown optional attribute declares more bytes than remain: the
    // skip runs off the end and the stream simply ends
    let mut buf = response_header(0x0101, 2);
    put_mandatory_addresses(&mut buf);
    put_u16(&mut buf, 0x9999);
    put_u16(&mut buf, 100);
    buf.push(0xaa);
    let (correlator, Response::Bind(resp)) = decode(&buf).unwrap();
    assert_eq!(correlator, 2);
    assert_eq!(resp.changed_address, v4(10, 0, 0, 3, 3000));
}
