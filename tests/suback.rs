use bytes::{Buf, BytesMut};
use robustmq::protocol::fixed_header::{parse_fixed_header, write_remaining_length, FixedHeader};
use robustmq::protocol::suback::{code, read, reason, SubAck, SubscribeReasonCode};
use robustmq::protocol::{qos, Error, QoS};

#[test]
fn test_suback() {
    let mut buffer = BytesMut::new();
    let return_codes = vec![reason(1).unwrap()];
    let suback = SubAck {
        pkid: 5u16,
        return_codes,
    };
    robustmq::protocol::suback::write(&suback, &mut buffer).unwrap();

    let fixed_header: FixedHeader = parse_fixed_header(&buffer[..]).unwrap();
    assert_eq!(fixed_header.byte1, 0b1001_0000);
    assert_eq!(fixed_header.fixed_header_len, 2);
    assert_eq!(fixed_header.remaining_len, 3);
    let suback_read = read(fixed_header, buffer.copy_to_bytes(buffer.len())).unwrap();
    assert_eq!(suback_read.pkid, 5u16);
    let return_code_read: Vec<u8> = suback.return_codes.iter().map(|&c| code(c)).collect();
    assert_eq!(return_code_read.first().unwrap(), &0x01);
}

#[test]
fn suback_bytes_on_the_wire() {
    let mut buffer = BytesMut::new();
    let suback = SubAck {
        pkid: 0x0102,
        return_codes: vec![
            SubscribeReasonCode::Success(QoS::ExactlyOnce),
            SubscribeReasonCode::Failure,
        ],
    };
    assert_eq!(robustmq::protocol::suback::write(&suback, &mut buffer), Ok(6));
    assert_eq!(&buffer[..], &[0x90, 4, 0x01, 0x02, 2, 0x80]);
    let header = parse_fixed_header(&buffer[..]).unwrap();
    let back = read(header, buffer.freeze()).unwrap();
    assert_eq!(back.pkid, 0x0102);
    assert_eq!(back.return_codes, suback.return_codes);
}

#[test]
fn suback_read_errors() {
    let header = FixedHeader { byte1: 0x90, fixed_header_len: 2, remaining_len: 2 };
    let short = bytes::Bytes::from(vec![0x90, 2, 0, 1]);
    assert_eq!(read(header, short), Err(Error::MalformedPacket));
    let header = FixedHeader { byte1: 0x90, fixed_header_len: 2, remaining_len: 4 };
    let bad = bytes::Bytes::from(vec![0x90, 4, 0, 1, 1, 7]);
    assert_eq!(read(header, bad), Err(Error::InvalidSubscribeReasonCode(7)));
}

#[test]
fn reason_codes() {
    assert_eq!(reason(0), Ok(SubscribeReasonCode::Success(QoS::AtMostOnce)));
    assert_eq!(reason(2), Ok(SubscribeReasonCode::Success(QoS::ExactlyOnce)));
    assert_eq!(reason(128), Ok(SubscribeReasonCode::Failure));
    assert_eq!(reason(3), Err(Error::InvalidSubscribeReasonCode(3)));
    assert_eq!(code(SubscribeReasonCode::NotAuthorized), 135);
    assert_eq!(code(SubscribeReasonCode::Success(QoS::AtLeastOnce)), 1);
    assert_eq!(qos(1), Some(QoS::AtLeastOnce));
    assert_eq!(qos(3), None);
}

#[test]
fn remaining_length_encoding() {
    let mut v = Vec::new();
    assert_eq!(write_remaining_length(&mut v, 321), Ok(2));
    assert_eq!(v, vec![0xC1, 0x02]);
    let mut w = vec![0x30];
    assert_eq!(write_remaining_length(&mut w, 268_435_455), Ok(4));
    assert_eq!(w, vec![0x30, 0xFF, 0xFF, 0xFF, 0x7F]);
    let h = parse_fixed_header(&w).unwrap();
    assert_eq!(h.remaining_len, 268_435_455);
    assert_eq!(h.fixed_header_len, 5);
    let mut x = Vec::new();
    assert_eq!(write_remaining_length(&mut x, 268_435_456), Err(Error::PayloadTooLong));
    assert!(x.is_empty());
}

#[test]
fn fixed_header_errors() {
    assert_eq!(parse_fixed_header(&[0x90]), Err(Error::InsufficientBytes(1)));
    assert_eq!(parse_fixed_header(&[0x90, 0x80]), Err(Error::InsufficientBytes(1)));
    assert_eq!(
        parse_fixed_header(&[0x90, 0x80, 0x80, 0x80, 0x80, 0x01]),
        Err(Error::MalformedRemainingLength)
    );
}
