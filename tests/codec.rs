use rustle::answer::{encode_question, DNSQueryAnswer};
use rustle::q_class::QClass;
use rustle::q_type::QType;
use rustle::question::{decode_some_bytes, get_query_from_bytes, DNSQueryQuestion, DecodeError};

fn query(id: u16, flags: u16, name: &[&str], q_type: u16, q_class: u16) -> Vec<u8> {
    let mut b = vec![(id >> 8) as u8, id as u8, (flags >> 8) as u8, flags as u8, 0, 1, 0, 0, 0, 0, 0, 0];
    for label in name {
        b.push(label.len() as u8);
        b.extend_from_slice(label.as_bytes());
    }
    b.push(0);
    b.extend_from_slice(&[(q_type >> 8) as u8, q_type as u8, (q_class >> 8) as u8, q_class as u8]);
    b
}

fn labels(q: &DNSQueryQuestion) -> Vec<String> {
    q.q_name_array.iter().map(|l| String::from_utf8(l.clone()).unwrap()).collect()
}

#[test]
fn decodes_header_and_question() {
    let b = query(0x1234, 0x0100, &["ads", "example", "com"], 1, 1);
    let q = DNSQueryQuestion::try_from(&b).unwrap();
    assert_eq!(q.message_id, 0x1234);
    assert!(q.is_query);
    assert_eq!(q.op_code, 0);
    assert!(q.is_recursive);
    assert!(!q.is_truncated);
    assert_eq!(q.num_of_questions, 1);
    assert_eq!(labels(&q), vec!["ads", "example", "com"]);
    assert_eq!(q.q_type, 1);
    assert_eq!(q.q_class, 1);
    assert_eq!(q.q_type(), Some(QType::A));
    assert_eq!(q.q_class(), Some(QClass::IN));
    assert_eq!(q.question_end, b.len());
    assert_eq!(q.trailing_bytes, 0);
    assert_eq!(q.udp_payload_size, None);
}

#[test]
fn opcode_uses_bits_eleven_to_fourteen() {
    // QR=1, opcode 2, TC=1
    let b = query(7, 0x9200, &["a"], 1, 1);
    let q = DNSQueryQuestion::try_from(&b).unwrap();
    assert!(!q.is_query);
    assert_eq!(q.op_code, 2);
    assert!(q.is_truncated);
    assert!(!q.is_recursive);
}

#[test]
fn malformed_three_bytes_is_too_short() {
    assert_eq!(DNSQueryQuestion::try_from(&[1u8, 2, 3]).err(), Some(DecodeError::TooShort));
    assert_eq!(decode_some_bytes(&[1u8, 2, 3]), Err(DecodeError::TooShort));
}

#[test]
fn missing_type_and_class_is_too_short() {
    let mut b = query(1, 0, &["abc"], 1, 1);
    b.truncate(b.len() - 2);
    assert_eq!(decode_some_bytes(&b), Err(DecodeError::TooShort));
}

#[test]
fn label_running_past_end_is_too_short() {
    let mut b = vec![0u8; 12];
    b.extend_from_slice(&[5, b'a', b'b']);
    assert_eq!(decode_some_bytes(&b), Err(DecodeError::TooShort));
}

#[test]
fn label_over_sixty_three_bytes_overflows() {
    let mut b = vec![0u8; 12];
    b.push(64);
    b.extend_from_slice(&[b'a'; 64]);
    b.extend_from_slice(&[0, 0, 1, 0, 1]);
    assert_eq!(decode_some_bytes(&b), Err(DecodeError::LabelOverflow));
}

#[test]
fn name_over_255_bytes_overflows() {
    let long = "a".repeat(63);
    let name = [long.as_str(), long.as_str(), long.as_str(), long.as_str()];
    let b = query(1, 0, &name, 1, 1);
    assert_eq!(decode_some_bytes(&b), Err(DecodeError::LabelOverflow));
    let short = "a".repeat(61);
    let name = [long.as_str(), long.as_str(), long.as_str(), short.as_str()];
    let b = query(1, 0, &name, 1, 1);
    assert_eq!(decode_some_bytes(&b), Ok(()));
}

#[test]
fn pointer_to_itself_is_a_loop() {
    let mut b = vec![0u8; 12];
    b.extend_from_slice(&[0xc0, 12, 0, 1, 0, 1]);
    assert_eq!(decode_some_bytes(&b), Err(DecodeError::PointerLoop));
}

#[test]
fn pointer_is_followed() {
    // question name: "www" then a pointer to "example.com" stored after the question
    let mut b = vec![0u8, 9, 0, 0, 0, 1, 0, 0, 0, 0, 0, 0];
    b.extend_from_slice(&[3, b'w', b'w', b'w', 0xc0, 22, 0, 1, 0, 1]);
    b.extend_from_slice(&[7]);
    b.extend_from_slice(b"example");
    b.extend_from_slice(&[3]);
    b.extend_from_slice(b"com");
    b.push(0);
    let q = DNSQueryQuestion::try_from(&b).unwrap();
    assert_eq!(labels(&q), vec!["www", "example", "com"]);
    assert_eq!(q.question_end, 22);
    assert_eq!(q.trailing_bytes, b.len() - 22);
}

#[test]
fn opt_record_gives_payload_size() {
    let mut b = query(3, 0x0100, &["example", "com"], 28, 1);
    b[11] = 1;
    let qend = b.len();
    b.extend_from_slice(&[0, 0, 41, 0x10, 0x00, 0, 0, 0, 0, 0, 0]);
    let q = DNSQueryQuestion::try_from(&b).unwrap();
    assert_eq!(q.question_end, qend);
    assert_eq!(q.udp_payload_size, Some(4096));
    assert_eq!(q.trailing_bytes, 0);
}

#[test]
fn non_opt_additional_record_counts_as_trailing() {
    let mut b = query(3, 0x0100, &["example", "com"], 1, 1);
    b[11] = 1;
    b.extend_from_slice(&[0, 0, 1, 0, 1, 0, 0, 0, 0, 0, 0]);
    let q = DNSQueryQuestion::try_from(&b).unwrap();
    assert_eq!(q.udp_payload_size, None);
    assert_eq!(q.trailing_bytes, 11);
}

#[test]
fn unknown_type_still_decodes() {
    let b = query(3, 0, &["x"], 65, 1);
    let q = DNSQueryQuestion::try_from(&b).unwrap();
    assert_eq!(q.q_type, 65);
    assert_eq!(q.q_type(), None);
}

#[test]
fn query_part_matches_question() {
    let b = query(0x4242, 0x0100, &["a", "b"], 15, 3);
    let d = get_query_from_bytes(&b).unwrap();
    assert_eq!(d.q_type, 15);
    assert_eq!(d.q_class, 3);
    assert!(d.is_recursive);
    assert_eq!(d.q_name_array, vec![b"a".to_vec(), b"b".to_vec()]);
    assert_eq!(get_query_from_bytes(&b[..5]).err(), Some(DecodeError::TooShort));
}

#[test]
fn question_round_trip() {
    let b = query(0x1234, 0x0100, &["ads", "Example", "com"], 28, 1);
    let q = DNSQueryQuestion::try_from(&b).unwrap();
    let encoded = encode_question(&q.q_name_array, q.q_type, q.q_class);
    assert_eq!(encoded, b[12..q.question_end].to_vec());
}

#[test]
fn q_type_codes() {
    assert_eq!(QType::from_u16(1), Some(QType::A));
    assert_eq!(QType::from_u16(28), Some(QType::AAAA));
    assert_eq!(QType::from_u16(41), Some(QType::OPT));
    assert_eq!(QType::from_u16(257), Some(QType::CAA));
    assert_eq!(QType::from_u16(3), None);
    assert_eq!(QType::CAA.to_u16(), 257);
    assert_eq!(QClass::from_u16(4), Some(QClass::HS));
    assert_eq!(QClass::from_u16(0), None);
    assert_eq!(QClass::from_u16(5), None);
    assert_eq!(QClass::CH.to_u16(), 3);
}

#[test]
fn sinkhole_a_answer_bytes() {
    let b = query(0x1234, 0x0100, &["ads", "example", "com"], 1, 1);
    let q = DNSQueryQuestion::try_from(&b).unwrap();
    let reply = DNSQueryAnswer::sinkhole(&q, 0, 300).encode();
    let mut expected = vec![0x12, 0x34, 0x81, 0x80, 0, 1, 0, 1, 0, 0, 0, 0];
    expected.extend_from_slice(&b[12..]);
    expected.extend_from_slice(&[0xc0, 0x0c, 0, 1, 0, 1, 0, 0, 0x01, 0x2c, 0, 4, 0, 0, 0, 0]);
    assert_eq!(reply, expected);
}

#[test]
fn sinkhole_aaaa_and_other_types() {
    let b = query(1, 0, &["x"], 28, 1);
    let q = DNSQueryQuestion::try_from(&b).unwrap();
    let reply = DNSQueryAnswer::sinkhole(&q, 3, 60).encode();
    assert_eq!(reply[3], 0x83);
    assert_eq!(&reply[reply.len() - 18..reply.len() - 16], &[0, 16]);
    assert!(reply[reply.len() - 16..].iter().all(|&x| x == 0));
    let b = query(1, 0, &["x"], 16, 1);
    let q = DNSQueryQuestion::try_from(&b).unwrap();
    let reply = DNSQueryAnswer::sinkhole(&q, 0, 60).encode();
    assert_eq!(&reply[reply.len() - 2..], &[0, 0]);
    assert_eq!(reply.len(), 12 + 7 + 12);
}

#[test]
fn reply_over_advertised_size_is_truncated() {
    let mut b = query(5, 0x0100, &["example", "com"], 1, 1);
    b[11] = 1;
    b.extend_from_slice(&[0, 0, 41, 0, 40, 0, 0, 0, 0, 0, 0]);
    let q = DNSQueryQuestion::try_from(&b).unwrap();
    assert_eq!(q.udp_payload_size, Some(40));
    let reply = DNSQueryAnswer::sinkhole(&q, 0, 300).encode();
    assert_eq!(reply[2], 0x83);
    assert_eq!(&reply[6..8], &[0, 0]);
    assert_eq!(reply.len(), 12 + 17);
}

#[test]
fn unusual_label_bytes_flagged_but_kept() {
    let b = query(1, 0, &["we!rd", "com"], 1, 1);
    let q = DNSQueryQuestion::try_from(&b).unwrap();
    assert!(q.unusual_label_bytes);
    assert_eq!(labels(&q), vec!["we!rd", "com"]);
    let b = query(1, 0, &["fine-name_1", "com"], 1, 1);
    let q = DNSQueryQuestion::try_from(&b).unwrap();
    assert!(!q.unusual_label_bytes);
}

#[test]
fn decoder_is_total_on_arbitrary_bytes() {
    let mut state: u32 = 0x2545_f491;
    for len in 0..700usize {
        let mut b = Vec::with_capacity(len);
        for _ in 0..len {
            state ^= state << 13;
            state ^= state >> 17;
            state ^= state << 5;
            b.push((state >> 24) as u8);
        }
        match DNSQueryQuestion::try_from(&b) {
            Ok(q) => {
                assert!(b.len() >= 12);
                assert!(q.question_end <= b.len());
                assert_eq!(q.message_id, u16::from_be_bytes([b[0], b[1]]));
            }
            Err(e) => assert!(matches!(
                e,
                DecodeError::TooShort | DecodeError::LabelOverflow | DecodeError::PointerLoop
            )),
        }
    }
    let mut max = vec![0xc0u8; 4096];
    max[13] = 12;
    assert!(DNSQueryQuestion::try_from(&max).is_err());
}
