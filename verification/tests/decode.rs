use dnest::decoder::{Decode, Decoder};
use dnest::header::{Flags, Header, MessageKind, Opcode, RCode};
use dnest::name::Name;
use dnest::question::Question;
use dnest::reader::DecodeError;
use dnest::util::bit_of;

/// A standard query for `www.example.com`, type A, class IN.
fn query_message() -> Vec<u8> {
    let mut msg = vec![
        0x12, 0x34, // id
        0x01, 0x00, // flags: RD
        0x00, 0x01, // qdcount
        0x00, 0x00, // ancount
        0x00, 0x00, // nscount
        0x00, 0x00, // arcount
    ];
    msg.extend_from_slice(&[3, b'w', b'w', b'w', 7, b'e', b'x', b'a', b'm', b'p', b'l', b'e', 3, b'c', b'o', b'm', 0]);
    msg.extend_from_slice(&[0x00, 0x01, 0x00, 0x01]);
    msg
}

#[test]
fn new_decoder_starts_at_zero() {
    let buf = [1u8, 2, 3];
    let decoder = Decoder::new(&buf);
    assert_eq!(decoder.get_current_pos(), 0);
}

#[test]
fn bit_of_counts_from_most_significant() {
    assert!(bit_of(0x8000, 0));
    assert!(!bit_of(0x8000, 1));
    assert!(bit_of(0x0001, 15));
    assert!(!bit_of(0x0001, 14));
    assert!(bit_of(0x0100, 7));
    assert!(!bit_of(0x0000, 5));
    for i in 0..16 {
        assert!(bit_of(0xffff, i));
    }
}

#[test]
fn u8_decode_reads_one_byte() {
    let buf = [0xabu8, 0xcd];
    let mut decoder = Decoder::new(&buf);
    assert!(u8::decode(&mut decoder) == Ok(0xab));
    assert_eq!(decoder.get_current_pos(), 1);
    assert!(u8::decode(&mut decoder) == Ok(0xcd));
    assert_eq!(decoder.get_current_pos(), 2);
    assert!(u8::decode(&mut decoder) == Err(DecodeError::OutOfBounds));
    assert_eq!(decoder.get_current_pos(), 2);
}

#[test]
fn u16_decode_is_big_endian() {
    let buf = [0x12u8, 0x34, 0xff];
    let mut decoder = Decoder::new(&buf);
    assert!(u16::decode(&mut decoder) == Ok(0x1234));
    assert_eq!(decoder.get_current_pos(), 2);
    // One byte left: the read fails and the position stays.
    assert!(u16::decode(&mut decoder) == Err(DecodeError::OutOfBounds));
    assert_eq!(decoder.get_current_pos(), 2);
}

#[test]
fn u16_decode_on_empty_buffer() {
    let buf: [u8; 0] = [];
    let mut decoder = Decoder::new(&buf);
    assert!(u16::decode(&mut decoder) == Err(DecodeError::OutOfBounds));
    assert_eq!(decoder.get_current_pos(), 0);
}

#[test]
fn opcode_new_accepts_four_bits() {
    assert!(Opcode::new(0) == Some(Opcode::QUERY()));
    assert!(Opcode::new(1) == Some(Opcode::INVERSE_QUERY()));
    assert!(Opcode::new(2) == Some(Opcode::STATUS()));
    assert!(Opcode::new(15).is_some());
    assert!(Opcode::new(16).is_none());
    assert!(Opcode::new(255).is_none());
}

#[test]
fn rcode_new_accepts_four_bits() {
    assert!(RCode::new(0) == Some(RCode::NO_ERROR()));
    assert!(RCode::new(1) == Some(RCode::FORM_ERROR()));
    assert!(RCode::new(2) == Some(RCode::SERVER_FAILURE()));
    assert!(RCode::new(3) == Some(RCode::NONEXISTENT_DOMAIN()));
    assert!(RCode::new(4) == Some(RCode::NOT_IMPLEMENTED()));
    assert!(RCode::new(5) == Some(RCode::QUERY_REFUSED()));
    assert!(RCode::new(6) == Some(RCode::NAME_EXISTS_WHEN_IT_SHOULD_NOT()));
    assert!(RCode::new(15).is_some());
    assert!(RCode::new(16).is_none());
}

#[test]
fn flags_decode_standard_response() {
    let buf = [0x81u8, 0x80];
    let mut decoder = Decoder::new(&buf);
    let flags = match Flags::decode(&mut decoder) {
        Ok(flags) => flags,
        Err(_) => panic!("flags should decode"),
    };
    assert_eq!(decoder.get_current_pos(), 2);
    assert!(flags.kind() == MessageKind::Reply);
    assert!(flags.opcode() == Opcode::QUERY());
    assert!(!flags.authoritative_answer());
    assert!(!flags.truncated());
    assert!(flags.recursion_desired());
    assert!(flags.recursion_available());
    assert!(!flags.z());
    assert!(!flags.authentic_data());
    assert!(!flags.checking_disabled());
    assert!(flags.rcode() == RCode::NO_ERROR());
}

#[test]
fn flags_decode_every_field() {
    // QR=0, opcode=2, AA TC RD RA Z AD CD all set, rcode=3.
    let word: u16 = (2 << 11) | (0x7f << 4) | 3;
    let buf = word.to_be_bytes();
    let mut decoder = Decoder::new(&buf);
    let flags = match Flags::decode(&mut decoder) {
        Ok(flags) => flags,
        Err(_) => panic!("flags should decode"),
    };
    assert!(flags.kind() == MessageKind::Query);
    assert!(flags.opcode() == Opcode::STATUS());
    assert!(flags.authoritative_answer());
    assert!(flags.truncated());
    assert!(flags.recursion_desired());
    assert!(flags.recursion_available());
    assert!(flags.z());
    assert!(flags.authentic_data());
    assert!(flags.checking_disabled());
    assert!(flags.rcode() == RCode::NONEXISTENT_DOMAIN());
}

#[test]
fn flags_decode_short_buffer() {
    let buf = [0x81u8];
    let mut decoder = Decoder::new(&buf);
    assert!(Flags::decode(&mut decoder).is_err());
    assert_eq!(decoder.get_current_pos(), 0);
}

#[test]
fn header_decode_query() {
    let msg = query_message();
    let mut decoder = Decoder::new(&msg);
    let header = match Header::decode(&mut decoder) {
        Ok(header) => header,
        Err(_) => panic!("header should decode"),
    };
    assert_eq!(decoder.get_current_pos(), 12);
    assert_eq!(header.id(), 0x1234);
    assert_eq!(header.qdcount(), 1);
    assert_eq!(header.ancount(), 0);
    assert_eq!(header.nscount(), 0);
    assert_eq!(header.arcount(), 0);
    let flags = header.flags();
    assert!(flags.kind() == MessageKind::Query);
    assert!(flags.recursion_desired());
    assert!(!flags.recursion_available());
    assert!(flags.rcode() == RCode::NO_ERROR());
}

#[test]
fn header_decode_counts() {
    let buf = [0u8, 1, 0x84, 0x00, 0, 2, 0, 3, 0, 4, 0, 5];
    let mut decoder = Decoder::new(&buf);
    let header = match Header::decode(&mut decoder) {
        Ok(header) => header,
        Err(_) => panic!("header should decode"),
    };
    assert_eq!(header.id(), 1);
    assert!(header.flags().authoritative_answer());
    assert!(header.flags().kind() == MessageKind::Reply);
    assert_eq!(header.qdcount(), 2);
    assert_eq!(header.ancount(), 3);
    assert_eq!(header.nscount(), 4);
    assert_eq!(header.arcount(), 5);
}

#[test]
fn header_decode_equal_bytes_equal_headers() {
    let msg = query_message();
    let mut first = Decoder::new(&msg);
    let mut second = Decoder::new(&msg[..12]);
    let a = Header::decode(&mut first);
    let b = Header::decode(&mut second);
    assert!(a.is_ok());
    assert!(a == b);
}

#[test]
fn header_decode_short_buffer_stops_after_last_whole_word() {
    // Eleven bytes: five words read, the sixth fails.
    let buf = [0u8; 11];
    let mut decoder = Decoder::new(&buf);
    assert!(Header::decode(&mut decoder) == Err(DecodeError::OutOfBounds));
    assert_eq!(decoder.get_current_pos(), 10);
}

#[test]
fn header_decode_empty_buffer() {
    let buf: [u8; 0] = [];
    let mut decoder = Decoder::new(&buf);
    assert!(Header::decode(&mut decoder) == Err(DecodeError::OutOfBounds));
    assert_eq!(decoder.get_current_pos(), 0);
}

#[test]
fn name_decode_labels() {
    let msg = query_message();
    let mut decoder = Decoder::new(&msg[12..]);
    let name = match Name::decode(&mut decoder) {
        Ok(name) => name,
        Err(_) => panic!("name should decode"),
    };
    assert_eq!(name.start_pos(), 0);
    assert_eq!(decoder.get_current_pos(), 17);
}

#[test]
fn name_decode_root() {
    let buf = [0u8, 0xff];
    let mut decoder = Decoder::new(&buf);
    assert!(Name::decode(&mut decoder).is_ok());
    assert_eq!(decoder.get_current_pos(), 1);
}

#[test]
fn name_decode_compression_pointer() {
    let buf = [1u8, b'a', 0xc0, 0x0c, 0x99];
    let mut decoder = Decoder::new(&buf);
    assert!(Name::decode(&mut decoder).is_ok());
    assert_eq!(decoder.get_current_pos(), 4);
}

#[test]
fn name_decode_truncated_pointer() {
    let buf = [0xc0u8];
    let mut decoder = Decoder::new(&buf);
    assert!(matches!(Name::decode(&mut decoder), Err(DecodeError::OutOfBounds)));
    assert_eq!(decoder.get_current_pos(), 1);
}

#[test]
fn name_decode_unsupported_label_type() {
    let buf = [0x40u8, 0, 0];
    let mut decoder = Decoder::new(&buf);
    assert!(matches!(Name::decode(&mut decoder), Err(DecodeError::UnsupportedLabelType)));
    assert_eq!(decoder.get_current_pos(), 1);
    let buf = [0x80u8, 0, 0];
    let mut decoder = Decoder::new(&buf);
    assert!(matches!(Name::decode(&mut decoder), Err(DecodeError::UnsupportedLabelType)));
}

#[test]
fn name_decode_truncated_label() {
    let buf = [5u8, b'a', b'b'];
    let mut decoder = Decoder::new(&buf);
    assert!(matches!(Name::decode(&mut decoder), Err(DecodeError::OutOfBounds)));
    assert_eq!(decoder.get_current_pos(), 1);
}

#[test]
fn name_decode_missing_terminator() {
    let buf = [1u8, b'a'];
    let mut decoder = Decoder::new(&buf);
    assert!(matches!(Name::decode(&mut decoder), Err(DecodeError::OutOfBounds)));
    assert_eq!(decoder.get_current_pos(), 2);
}

fn long_labels(count: usize, terminator: &[u8]) -> Vec<u8> {
    let mut buf = Vec::new();
    for _ in 0..count {
        buf.push(63u8);
        buf.extend_from_slice(&[b'x'; 63]);
    }
    buf.extend_from_slice(terminator);
    buf
}

#[test]
fn name_decode_within_length_limit() {
    // Three 63-byte labels take 192 bytes; the terminator makes 193.
    let buf = long_labels(3, &[0]);
    let mut decoder = Decoder::new(&buf);
    assert!(Name::decode(&mut decoder).is_ok());
    assert_eq!(decoder.get_current_pos(), 193);
    assert!(decoder.get_current_pos() <= Name::MAX_LENGTH);
}

#[test]
fn name_decode_length_limit_exceeded() {
    // A fourth 63-byte label would need 256 bytes of capacity.
    let buf = long_labels(4, &[0]);
    let mut decoder = Decoder::new(&buf);
    assert!(matches!(Name::decode(&mut decoder), Err(DecodeError::NameLengthLimitExceeded)));
    assert_eq!(decoder.get_current_pos(), 193);
}

#[test]
fn name_decode_pointer_after_long_labels() {
    // 192 bytes of labels leave 63 bytes of capacity; a pointer needs two.
    let buf = long_labels(3, &[0xc0, 0x00]);
    let mut decoder = Decoder::new(&buf);
    assert!(Name::decode(&mut decoder).is_ok());
    assert_eq!(decoder.get_current_pos(), 194);
}

#[test]
fn question_decode_query() {
    let msg = query_message();
    let mut decoder = Decoder::new(&msg);
    assert!(Header::decode(&mut decoder).is_ok());
    let question = match Question::decode(&mut decoder) {
        Ok(question) => question,
        Err(_) => panic!("question should decode"),
    };
    assert_eq!(question.name().start_pos(), 12);
    assert_eq!(question.qtype(), 1);
    assert_eq!(question.qclass(), 1);
    assert_eq!(decoder.get_current_pos(), msg.len());
}

#[test]
fn question_decode_missing_class() {
    let buf = [0u8, 0, 28, 0];
    let mut decoder = Decoder::new(&buf);
    assert!(matches!(Question::decode(&mut decoder), Err(DecodeError::OutOfBounds)));
    assert_eq!(decoder.get_current_pos(), 3);
}

#[test]
fn question_decode_bad_name() {
    let buf = [0x40u8, 0, 1, 0, 1];
    let mut decoder = Decoder::new(&buf);
    assert!(matches!(Question::decode(&mut decoder), Err(DecodeError::UnsupportedLabelType)));
    assert_eq!(decoder.get_current_pos(), 1);
}
