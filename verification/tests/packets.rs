use bitchat::fragmentation::{parse_fragment, FragmentType};
use bitchat::message::{encode_plain_message, encode_sealed_message, have_mentions_room};
use bitchat::packet::{encode_packet, set_ttl, stamp_of};
use bitchat::protocol::{
    create_bitchat_message_payload, create_bitchat_message_payload_full, create_bitchat_message_payload_with_flags,
    create_bitchat_packet, create_bitchat_packet_with_recipient, create_bitchat_packet_with_recipient_and_signature,
    create_bitchat_packet_with_signature, create_encrypted_channel_message_payload, debug_level,
    generate_keys_and_payload, parse_bitchat_message_payload, parse_bitchat_packet, should_send_ack, unpad_message,
    DebugLevel, MessageType, Peer, PublicIdentity, BITCHAT_CHARACTERISTIC_UUID, BITCHAT_SERVICE_UUID,
    BROADCAST_RECIPIENT, COVER_TRAFFIC_PREFIX, VERSION,
};

const ALL_TYPES: [(MessageType, u8); 12] = [
    (MessageType::Announce, 0x01),
    (MessageType::KeyExchange, 0x02),
    (MessageType::Leave, 0x03),
    (MessageType::Message, 0x04),
    (MessageType::FragmentStart, 0x05),
    (MessageType::FragmentContinue, 0x06),
    (MessageType::FragmentEnd, 0x07),
    (MessageType::ChannelAnnounce, 0x08),
    (MessageType::ChannelRetention, 0x09),
    (MessageType::DeliveryAck, 0x0A),
    (MessageType::DeliveryStatusRequest, 0x0B),
    (MessageType::ReadReceipt, 0x0C),
];

fn strings(list: &[&str]) -> Vec<String> {
    list.iter().map(|s| s.to_string()).collect()
}

#[test]
fn every_message_type_has_its_byte() {
    for (t, byte) in ALL_TYPES {
        assert_eq!(t.code(), byte);
        assert_eq!(MessageType::from_code(byte), Some(t));
    }
    assert_eq!(MessageType::from_code(0), None);
    assert_eq!(MessageType::from_code(0x0D), None);
    assert_eq!(MessageType::from_code(255), None);
}

#[test]
fn only_three_types_are_fragments() {
    let fragments: Vec<u8> = ALL_TYPES.iter().filter(|(t, _)| t.is_fragment()).map(|(_, b)| *b).collect();
    assert_eq!(fragments, vec![0x05, 0x06, 0x07]);
}

#[test]
fn constants_are_as_agreed() {
    assert_eq!(VERSION, "v1.0.0");
    assert_eq!(format!("{:032x}", BITCHAT_SERVICE_UUID), "f47b5e2d4a9e4c5a9b3f8e1d2c3a4b5c");
    assert_eq!(format!("{:032x}", BITCHAT_CHARACTERISTIC_UUID), "a1b2c3d4e5f64a5b8c9d0e1f2a3b4c5d");
    assert_eq!(COVER_TRAFFIC_PREFIX, "\u{2602}DUMMY\u{2602}");
    assert_eq!(BROADCAST_RECIPIENT, [255u8; 8]);
}

#[test]
fn a_peer_has_no_nickname_at_first() {
    assert_eq!(Peer::default().nickname, None);
}

#[test]
fn debug_levels_show_what_is_below_them() {
    assert!(DebugLevel::Full.shows(DebugLevel::Full));
    assert!(DebugLevel::Full.shows(DebugLevel::Basic));
    assert!(DebugLevel::Basic.shows(DebugLevel::Basic));
    assert!(!DebugLevel::Basic.shows(DebugLevel::Full));
    assert!(!DebugLevel::Clean.shows(DebugLevel::Basic));
    assert!(DebugLevel::Clean.shows(DebugLevel::Clean));
}

#[test]
fn debug_level_follows_the_arguments() {
    assert_eq!(debug_level(&strings(&["bitchat"])), DebugLevel::Clean);
    assert_eq!(debug_level(&strings(&["bitchat", "-d"])), DebugLevel::Basic);
    assert_eq!(debug_level(&strings(&["bitchat", "--debug"])), DebugLevel::Basic);
    assert_eq!(debug_level(&strings(&["bitchat", "-d", "-dd"])), DebugLevel::Full);
    assert_eq!(debug_level(&strings(&["bitchat", "--debug-full"])), DebugLevel::Full);
    assert_eq!(debug_level(&strings(&["bitchat", "-D"])), DebugLevel::Clean);
}

#[test]
fn padding_comes_off() {
    assert_eq!(unpad_message(&[]), Vec::<u8>::new());
    assert_eq!(unpad_message(&[9, 8, 2, 2]), vec![9, 8]);
    assert_eq!(unpad_message(&[3, 3, 3]), Vec::<u8>::new());
    assert_eq!(unpad_message(&[7, 1]), vec![7]);
}

#[test]
fn what_is_not_padding_stays() {
    assert_eq!(unpad_message(&[1, 2, 0]), vec![1, 2, 0]);
    assert_eq!(unpad_message(&[1, 3, 2, 3]), vec![1, 3, 2, 3]);
    assert_eq!(unpad_message(&[9, 200]), vec![9, 200]);
}

#[test]
fn padding_and_unpadding_cancel() {
    for n in 1..=255u8 {
        let message = vec![1u8, 2, n, n];
        let mut padded = message.clone();
        padded.extend(std::iter::repeat(n).take(n as usize));
        assert_eq!(unpad_message(&padded), message);
    }
}

#[test]
fn a_packet_has_its_fields_in_place() {
    let data = encode_packet(0x0102030405060708, "a1b2c3d4", None, MessageType::Message, vec![9, 8], None);
    assert_eq!(data[..3], [1, 4, 7]);
    assert_eq!(data[3..11], [1, 2, 3, 4, 5, 6, 7, 8]);
    assert_eq!(data[11], 1);
    assert_eq!(data[12..16], [0xa1, 0xb2, 0xc3, 0xd4]);
    assert_eq!(data[16..24], [255; 8]);
    assert_eq!(data[24..], [9, 8]);
}

#[test]
fn a_signed_packet_for_one_recipient() {
    let data = encode_packet(
        0,
        "0a0b0c0d",
        Some("1122334455667788"),
        MessageType::DeliveryAck,
        vec![5],
        Some(vec![7; 64]),
    );
    assert_eq!(data.len(), 16 + 8 + 64 + 1);
    assert_eq!(data[11], 3);
    assert_eq!(data[16..24], [0x11, 0x22, 0x33, 0x44, 0x55, 0x66, 0x77, 0x88]);
    assert_eq!(data[24..88], [7; 64]);
    let packet = parse_bitchat_packet(&data).unwrap();
    assert_eq!(packet.msg_type, MessageType::DeliveryAck);
    assert_eq!(packet._sender_id, vec![0x0a, 0x0b, 0x0c, 0x0d]);
    assert_eq!(packet.sender_id_str, "0a0b0c0d");
    assert_eq!(packet.recipient_id, Some(vec![0x11, 0x22, 0x33, 0x44, 0x55, 0x66, 0x77, 0x88]));
    assert_eq!(packet.recipient_id_str.as_deref(), Some("1122334455667788"));
    assert_eq!(packet.payload, vec![5]);
    assert_eq!(packet.ttl, 7);
}

#[test]
fn fragment_packets_have_no_recipient() {
    let data = encode_packet(0, "0a0b0c0d", Some("1122334455667788"), MessageType::FragmentEnd, vec![5], None);
    assert_eq!(data[11], 0);
    assert_eq!(data.len(), 17);
    let packet = parse_bitchat_packet(&data).unwrap();
    assert!(packet.recipient_id.is_none());
    assert!(packet.recipient_id_str.is_none());
    assert_eq!(packet.payload, vec![5]);
}

#[test]
fn senders_are_cut_to_four_bytes_and_nonsense_is_zero() {
    let long = encode_packet(0, "A1B2C3D4E5F6", None, MessageType::Leave, vec![], None);
    assert_eq!(long[12..16], [0xa1, 0xb2, 0xc3, 0xd4]);
    for nonsense in ["someone", "abc", "zz00zz00"] {
        let data = encode_packet(0, nonsense, None, MessageType::Leave, vec![], None);
        assert_eq!(data[12..16], [0; 4]);
    }
}

#[test]
fn recipients_that_are_not_hexadecimal_are_everyone() {
    let data = encode_packet(0, "a1b2c3d4", Some("nobody"), MessageType::Message, vec![], None);
    assert_eq!(data[16..24], [255; 8]);
}

#[test]
fn short_recipients_are_sent_as_they_are() {
    let data = encode_packet(0, "a1b2c3d4", Some("01020304"), MessageType::Message, vec![9], None);
    assert_eq!(data[16..], [1, 2, 3, 4, 9]);
    assert_eq!(parse_bitchat_packet(&data).unwrap_err(), "Packet too short for recipient ID");
}

#[test]
fn created_packets_show_the_clock() {
    let before = std::time::SystemTime::now().duration_since(std::time::UNIX_EPOCH).unwrap().as_millis() as u64;
    let data = create_bitchat_packet("a1b2c3d4", MessageType::Announce, b"ann".to_vec());
    let after = std::time::SystemTime::now().duration_since(std::time::UNIX_EPOCH).unwrap().as_millis() as u64;
    let mut bytes = [0u8; 8];
    bytes.copy_from_slice(&data[3..11]);
    let stamp = u64::from_be_bytes(bytes);
    assert!(before <= stamp && stamp <= after);
}

#[test]
fn stamps_have_sixty_four_bits() {
    assert_eq!(stamp_of(Some(1_700_000_000_123)), 1_700_000_000_123);
    assert_eq!(stamp_of(Some(u64::MAX as u128)), u64::MAX);
    assert_eq!(stamp_of(Some(u64::MAX as u128 + 6)), 5);
    assert_eq!(stamp_of(None), 0);
}

#[test]
fn the_ways_to_create_a_packet_agree() {
    let same = |a: Vec<u8>, b: Vec<u8>| assert_eq!((&a[..3], &a[11..]), (&b[..3], &b[11..]));
    let me = "a1b2c3d4";
    let to = "1122334455667788";
    same(
        create_bitchat_packet(me, MessageType::Leave, vec![1]),
        encode_packet(0, me, None, MessageType::Leave, vec![1], None),
    );
    same(
        create_bitchat_packet_with_signature(me, MessageType::Message, vec![2], Some(vec![3; 64])),
        encode_packet(0, me, None, MessageType::Message, vec![2], Some(vec![3; 64])),
    );
    same(
        create_bitchat_packet_with_recipient_and_signature(me, to, MessageType::Message, vec![4], Some(vec![5; 64])),
        encode_packet(0, me, Some(to), MessageType::Message, vec![4], Some(vec![5; 64])),
    );
    same(
        create_bitchat_packet_with_recipient(me, Some(to), MessageType::DeliveryAck, vec![6], None),
        encode_packet(0, me, Some(to), MessageType::DeliveryAck, vec![6], None),
    );
}

#[test]
fn broken_packets_are_refused() {
    let whole = encode_packet(0, "a1b2c3d4", None, MessageType::Message, vec![], Some(vec![1; 64]));
    assert!(parse_bitchat_packet(&whole).is_ok());
    assert_eq!(parse_bitchat_packet(&[]).unwrap_err(), "Packet too short");
    assert_eq!(parse_bitchat_packet(&whole[..11]).unwrap_err(), "Packet too short");
    assert_eq!(parse_bitchat_packet(&whole[..15]).unwrap_err(), "Packet too short for sender ID");
    assert_eq!(parse_bitchat_packet(&whole[..23]).unwrap_err(), "Packet too short for recipient ID");
    assert_eq!(parse_bitchat_packet(&whole[..87]).unwrap_err(), "Packet too short for signature");
    let mut odd = whole.clone();
    odd[1] = 0x2A;
    assert_eq!(parse_bitchat_packet(&odd).unwrap_err(), "Unknown message type");
    assert_eq!(parse_bitchat_packet(&odd[..12]).unwrap_err(), "Unknown message type");
}

#[test]
fn the_version_of_a_packet_does_not_matter() {
    let mut data = encode_packet(0, "a1b2c3d4", None, MessageType::Leave, vec![3], None);
    data[0] = 99;
    assert_eq!(parse_bitchat_packet(&data).unwrap().payload, vec![3]);
}

#[test]
fn the_time_to_live_is_separate() {
    let mut data = encode_packet(0, "a1b2c3d4", None, MessageType::Leave, vec![3], None);
    set_ttl(&mut data, 2);
    let packet = parse_bitchat_packet(&data).unwrap();
    assert_eq!(packet.ttl, 2);
    assert_eq!(packet.payload, vec![3]);
    assert_eq!(packet.sender_id_str, "a1b2c3d4");
}

#[test]
fn a_message_has_its_fields_in_place() {
    let id = [6u8; 16];
    let plain = encode_plain_message(id, "hi", None, false, "a1b2c3d4");
    assert_eq!(plain[0], 0x14);
    assert_eq!(plain[1..17], id);
    assert_eq!(plain[17..21], [0xa1, 0xb2, 0xc3, 0xd4]);
    assert_eq!(&plain[21..], b"hi");
    assert_eq!(encode_plain_message(id, "hi", None, true, "a1b2c3d4")[0], 0x16);
    let channel = encode_plain_message(id, "hi", Some("#rust"), false, "a1b2c3d4");
    assert_eq!(channel[0], 0x54);
    assert_eq!(&channel[21..], b"\x05#rusthi");
    assert_eq!(encode_plain_message(id, "hi", Some("#rust"), true, "a1b2c3d4")[0], 0x56);
    let sealed = encode_sealed_message(id, "#rust", Some(vec![1, 2, 3]), "a1b2c3d4");
    assert_eq!(sealed[0], 0xD4);
    assert_eq!(&sealed[21..], b"\x05#rust\x01\x02\x03");
    assert_eq!(&encode_sealed_message(id, "#rust", None, "a1b2c3d4")[21..], b"\x05#rust");
}

#[test]
fn messages_are_read_back() {
    let id: [u8; 16] = [0, 1, 2, 3, 4, 5, 6, 7, 8, 9, 10, 11, 12, 13, 14, 255];
    let digits = "000102030405060708090a0b0c0d0eff";
    let m = parse_bitchat_message_payload(&encode_plain_message(id, "grüße", Some("#wörk"), false, "a1b2c3d4"))
        .unwrap();
    assert_eq!(m.id, digits);
    assert_eq!(m.content, "grüße");
    assert_eq!(m.channel.as_deref(), Some("#wörk"));
    assert!(!m.is_encrypted);
    assert!(m.encrypted_content.is_none());
    let m = parse_bitchat_message_payload(&encode_sealed_message(id, "#x", Some(vec![9, 9]), "a1b2c3d4")).unwrap();
    assert_eq!(m.id, digits);
    assert_eq!(m.content, "[Encrypted message]");
    assert_eq!(m.channel.as_deref(), Some("#x"));
    assert!(m.is_encrypted);
    assert_eq!(m.encrypted_content, Some(vec![9, 9]));
}

#[test]
fn text_that_is_not_utf8_is_repaired() {
    let mut data = encode_plain_message([1; 16], "a", None, false, "a1b2c3d4");
    data.push(0xFF);
    data.push(b'b');
    assert_eq!(parse_bitchat_message_payload(&data).unwrap().content, "a\u{FFFD}b");
}

#[test]
fn long_channel_names_lose_their_length() {
    let name = "#".repeat(256);
    let data = encode_plain_message([1; 16], "x", Some(&name), false, "a1b2c3d4");
    assert_eq!(data[21], 0);
    let m = parse_bitchat_message_payload(&data).unwrap();
    assert_eq!(m.channel.as_deref(), Some(""));
    assert_eq!(m.content, format!("{}x", name));
}

#[test]
fn short_messages_are_refused() {
    let error = |data: &[u8]| parse_bitchat_message_payload(data).unwrap_err();
    assert_eq!(error(&[]), "Payload too short for flags");
    assert_eq!(error(&[0x04, 1, 2]), "Payload too short for message ID");
    assert_eq!(error(&[0x10, 1, 2, 3]), "Payload too short for sender peer ID");
    assert_eq!(error(&[0x40]), "Payload too short for channel len");
    assert_eq!(error(&[0x40, 2, b'#']), "Payload too short for channel name");
    assert_eq!(error(&[0x08]), "Payload too short for recipient len");
    assert_eq!(error(&[0x08, 1]), "Payload too short for recipient nickname");
    assert_eq!(error(&[0x20]), "Payload too short for mentions count");
    assert_eq!(error(&[0x20, 1]), "Payload too short for mention len");
    assert_eq!(error(&[0x20, 2, 1, b'a']), "Payload too short for mention len");
}

#[test]
fn the_parts_before_the_text_are_skipped() {
    let mut data = vec![0x08 | 0x20, 2, b'm', b'e', 2, 1, b'a', 3, b'b', b'o', b'b'];
    data.extend_from_slice(b"text");
    let m = parse_bitchat_message_payload(&data).unwrap();
    assert_eq!(m.id, "");
    assert_eq!(m.content, "text");
    assert!(m.channel.is_none());
    assert_eq!(parse_bitchat_message_payload(&[0]).unwrap().content, "");
}

#[test]
fn mentions_that_run_past_the_end_are_found() {
    assert!(have_mentions_room(&[0x20, 1, 1, b'a']));
    assert!(!have_mentions_room(&[0x20, 1, 2, b'a']));
    assert!(have_mentions_room(&[0x20, 2, 2, b'a']));
    assert!(have_mentions_room(&[]));
    assert!(have_mentions_room(b"\x00free text"));
}

#[test]
fn new_messages_get_an_identifier_of_their_own() {
    let (payload, kept) = create_bitchat_message_payload_full("me", "hi", Some("#c"), true, "a1b2c3d4");
    let read = parse_bitchat_message_payload(&payload).unwrap();
    assert_eq!(read.content, "hi");
    assert_eq!(read.channel.as_deref(), Some("#c"));
    assert_eq!(payload[0], 0x56);
    assert_eq!(kept.len(), 36);
    assert_eq!(kept.replace('-', ""), read.id);
    assert_ne!(kept, read.id);
    assert_eq!(&kept[14..15], "4");
    let hyphens: Vec<usize> = kept.char_indices().filter(|(_, c)| *c == '-').map(|(i, _)| i).collect();
    assert_eq!(hyphens, vec![8, 13, 18, 23]);
    let (other, _) = create_bitchat_message_payload_full("me", "hi", Some("#c"), true, "a1b2c3d4");
    assert_ne!(payload, other);
}

#[test]
fn messages_without_a_sender_have_zeros() {
    let payload = create_bitchat_message_payload("me", "hi", None);
    assert_eq!(payload[0], 0x14);
    assert_eq!(payload[17..21], [0; 4]);
    assert_eq!(&payload[21..], b"hi");
    let payload = create_bitchat_message_payload_with_flags("me", "hi", Some("#c"), true);
    assert_eq!(payload[0], 0x56);
    assert_eq!(&payload[21..], b"\x02#chi");
}

#[test]
fn sealed_messages_carry_what_was_sealed() {
    let (payload, kept) = create_encrypted_channel_message_payload("me", "#c", Some(vec![4, 5]), "a1b2c3d4");
    let read = parse_bitchat_message_payload(&payload).unwrap();
    assert_eq!(read.encrypted_content, Some(vec![4, 5]));
    assert_eq!(kept.replace('-', ""), read.id);
    let (payload, _) = create_encrypted_channel_message_payload("me", "#c", None, "a1b2c3d4");
    assert_eq!(parse_bitchat_message_payload(&payload).unwrap().encrypted_content, Some(vec![]));
}

#[test]
fn confirmations_are_due_to_few() {
    let me = strings(&["bob", "ann"]);
    assert!(should_send_ack(true, None, None, "ann", 100));
    assert!(should_send_ack(true, Some("#c"), None, "ann", 100));
    assert!(should_send_ack(false, Some("#c"), None, "ann", 9));
    assert!(!should_send_ack(false, Some("#c"), None, "ann", 10));
    assert!(should_send_ack(false, Some("#c"), Some(&me), "ann", 10));
    assert!(!should_send_ack(false, Some("#c"), Some(&me), "eve", 10));
    assert!(!should_send_ack(false, None, Some(&me), "ann", 1));
}

#[test]
fn the_key_exchange_offers_our_keys() {
    let identity = PublicIdentity { combined_public_key: vec![1, 2, 3], fingerprint: "f00".to_string() };
    assert_eq!(generate_keys_and_payload(&identity), (vec![1, 2, 3], "f00".to_string()));
}

#[test]
fn fragments_need_a_header() {
    assert!(parse_fragment(FragmentType::Start, &[0; 12]).is_none());
    let f = parse_fragment(FragmentType::End, &[1, 2, 3, 4, 5, 6, 7, 8, 1, 2, 3, 4, 4, 42]).unwrap();
    assert_eq!(f.fragment_type, FragmentType::End);
    assert_eq!(f.fragment_id, [1, 2, 3, 4, 5, 6, 7, 8]);
    assert_eq!((f.index, f.total, f.original_type), (0x0102, 0x0304, 4));
    assert_eq!(f.data, vec![42]);
    assert_eq!(f.serialize(), vec![1, 2, 3, 4, 5, 6, 7, 8, 1, 2, 3, 4, 4, 42]);
}
