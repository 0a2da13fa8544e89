use bitchat::ble::Transmission;
use bitchat::channels::Body;
use bitchat::client::{Action, ChatMode, Client};
use bitchat::delivery::DeliveryAck;
use bitchat::inbox::{
    ack_payload, audience, handling, next_reply_target, pass_on, present, private_payload, received_ack, relay_copy, AckRoute, Audience,
    Departure, Fate, Handling, Intake, Presentation, Route,
};
use bitchat::fragmentation::{create_fragment_packet, split_packet};
use bitchat::message::{encode_plain_message, encode_sealed_message};
use bitchat::outbox::key_exchange;
use bitchat::packet::{encode_packet, BitchatPacket};
use bitchat::protocol::{
    parse_bitchat_message_payload, parse_bitchat_packet, MessageType, PublicIdentity,
};

const ME: &str = "a1b2c3d4";
const ANN: &str = "01020304";

fn client() -> Client {
    Client::new(ME.to_string(), Some("me".to_string()))
}

fn packet(from: &str, to: Option<&str>, t: MessageType, payload: &[u8]) -> BitchatPacket {
    parse_bitchat_packet(&encode_packet(0, from, to, t, payload.to_vec(), None)).unwrap()
}

fn introduce(c: &mut Client, id: &str, nickname: &str) {
    c.take_announce(&packet(id, None, MessageType::Announce, nickname.as_bytes()));
}

fn whole(t: Transmission) -> Vec<u8> {
    match t {
        Transmission::Whole { data, .. } => data,
        Transmission::Pieces { .. } => panic!(),
    }
}

fn only_pending(c: &Client) -> usize {
    c.deliveries.pending_messages.len()
}

#[test]
fn a_new_client_has_a_nickname() {
    assert_eq!(client().nickname, "me");
    let c = Client::new(ME.to_string(), None);
    assert_eq!(c.nickname, "my-rust-client");
    assert_eq!(c.my_peer_id, ME);
    assert_eq!(c.peers.len(), 0);
}

#[test]
fn plain_commands_lead_to_plain_actions() {
    let mut c = client();
    let mut act = |line: &str| c.handle_command(line, &ChatMode::Public, None);
    assert!(matches!(act(""), Action::Nothing));
    assert!(matches!(act("3"), Action::SwitchTo(3)));
    assert!(matches!(act("/help"), Action::ShowHelp));
    assert!(matches!(act("/name "), Action::NameMissing));
    assert!(matches!(act("/name 123456789012345678901"), Action::NameTooLong));
    assert!(matches!(act("/list"), Action::ShowConversations));
    assert!(matches!(act("/public"), Action::GoPublic));
    assert!(matches!(act("/reply"), Action::NothingToReplyTo));
    assert!(matches!(act("/w"), Action::NobodyOnline));
    assert!(matches!(act("/status"), Action::ShowStatus));
    assert!(matches!(act("/exit"), Action::Exit));
    assert!(matches!(act("/clear"), Action::ClearScreen));
    assert!(matches!(act("/j rust"), Action::ChannelInvalid));
    assert!(matches!(act("/what is"), Action::UnknownCommand(w) if w == "/what"));
    assert!(matches!(act("/dm ann hi"), Action::UserNotFound(n) if n == "ann"));
    assert_eq!(c.nickname, "me");
}

#[test]
fn a_new_name_is_kept_and_announced() {
    let mut c = client();
    match c.handle_command("/name  ann ", &ChatMode::Public, None) {
        Action::Renamed { announcement } => {
            let p = parse_bitchat_packet(&announcement).unwrap();
            assert_eq!(p.msg_type, MessageType::Announce);
            assert_eq!(p.sender_id_str, ME);
            assert_eq!(p.payload, b"ann".to_vec());
            let mut other = Client::new(ANN.to_string(), None);
            assert_eq!(other.take_announce(&p), ("ann".to_string(), true));
            assert_eq!(other.peers.display_name(ME), "ann");
        },
        _ => panic!(),
    }
    assert_eq!(c.nickname, "ann");
}

#[test]
fn joining_discovers_a_channel() {
    let mut c = client();
    assert!(matches!(c.handle_command("/j #rust", &ChatMode::Public, None), Action::Joined(n) if n == "#rust"));
    assert!(c.channels.discovered.contains_key("#rust"));
    assert!(!c.channels.protected.contains_key("#rust"));
}

#[test]
fn replies_go_to_the_last_sender() {
    let mut c = client();
    let last = (ANN.to_string(), "ann".to_string());
    match c.handle_command("/reply", &ChatMode::Public, Some(&last)) {
        Action::EnterDm { nickname, peer_id } => assert_eq!((nickname.as_str(), peer_id.as_str()), ("ann", ANN)),
        _ => panic!(),
    }
}

#[test]
fn private_commands_find_their_peer() {
    let mut c = client();
    introduce(&mut c, ANN, "ann");
    match c.handle_command("/dm ann", &ChatMode::Public, None) {
        Action::EnterDm { nickname, peer_id } => assert_eq!((nickname.as_str(), peer_id.as_str()), ("ann", ANN)),
        _ => panic!(),
    }
    match c.handle_command("/dm ann how are you", &ChatMode::Public, None) {
        Action::SendPrivate { nickname, peer_id, text } => {
            assert_eq!((nickname.as_str(), peer_id.as_str(), text.as_str()), ("ann", ANN, "how are you"));
        },
        _ => panic!(),
    }
}

#[test]
fn those_online_are_listed_in_order() {
    let mut c = client();
    introduce(&mut c, "00000001", "zoe");
    introduce(&mut c, "00000002", "bob");
    introduce(&mut c, "00000003", "Ann");
    introduce(&mut c, "00000004", "bob");
    match c.handle_command("/online", &ChatMode::Public, None) {
        Action::ShowOnline(text) => assert_eq!(text, "Ann, bob, bob, zoe"),
        _ => panic!(),
    }
}

#[test]
fn what_is_said_depends_on_where() {
    let mut c = client();
    c.channels.set_key("#safe".to_string(), [9; 32]);
    match c.handle_command("hi", &ChatMode::Public, None) {
        Action::SendPlain { to, text } => assert_eq!((to, text.as_str()), (None, "hi")),
        _ => panic!(),
    }
    match c.handle_command("hi", &ChatMode::Channel("#open".to_string()), None) {
        Action::SendPlain { to, text } => assert_eq!((to.as_deref(), text.as_str()), (Some("#open"), "hi")),
        _ => panic!(),
    }
    match c.handle_command("hi", &ChatMode::Channel("#safe".to_string()), None) {
        Action::SendSealed { channel, key, text } => {
            assert_eq!((channel.as_str(), key, text.as_str()), ("#safe", [9; 32], "hi"));
        },
        _ => panic!(),
    }
    let dm = ChatMode::PrivateDM { nickname: "ann".to_string(), peer_id: ANN.to_string() };
    match c.handle_command("hi", &dm, None) {
        Action::SendPrivate { nickname, peer_id, text } => {
            assert_eq!((nickname.as_str(), peer_id.as_str(), text.as_str()), ("ann", ANN, "hi"));
        },
        _ => panic!(),
    }
}

#[test]
fn the_status_is_cut_to_size() {
    let mut c = Client::new(ME.to_string(), Some("a long nickname".to_string()));
    introduce(&mut c, ANN, "ann");
    let s = c.status();
    assert_eq!((s.peer_count, s.nickname.as_str(), s.id.as_str()), (1, "a long ni", ME));
    assert_eq!(client().status().nickname, "me");
}

#[test]
fn modes_know_their_channel() {
    assert_eq!(ChatMode::Channel("#a".to_string()).get_channel(), Some("#a"));
    assert_eq!(ChatMode::Public.get_channel(), None);
    let dm = ChatMode::PrivateDM { nickname: "ann".to_string(), peer_id: ANN.to_string() };
    assert_eq!(dm.get_channel(), None);
}

#[test]
fn public_messages_are_sent_and_read() {
    let mut c = client();
    let payload = c.begin_plain_message(Some("#rust"), "hi all");
    assert_eq!(only_pending(&c), 1);
    let data = whole(c.send_message(payload, vec![8; 64]));
    let mut other = Client::new(ANN.to_string(), None);
    let p = other.open_packet(&data).unwrap();
    assert_eq!(other.route_message(&p, None, false), Route::Read);
    match other.take_message(&p.sender_id_str, &p.payload) {
        Intake::New { message, sender_nick } => {
            assert_eq!(message.content, "hi all");
            assert_eq!(message.channel.as_deref(), Some("#rust"));
            assert_eq!(sender_nick, ME);
        },
        _ => panic!(),
    }
    assert!(matches!(other.take_message(&p.sender_id_str, &p.payload), Intake::Over(Fate::Repeated)));
    assert!(other.channels.discovered.contains_key("#rust"));
}

#[test]
fn private_messages_are_tracked_by_their_identifier() {
    let mut c = client();
    let payload = c.begin_private_message("psst");
    assert_eq!(payload[0], 0x16);
    assert_eq!(payload[17..21], [0xa1, 0xb2, 0xc3, 0xd4]);
    let digits = parse_bitchat_message_payload(&payload).unwrap().id;
    let kept = format!(
        "{}-{}-{}-{}-{}",
        &digits[..8],
        &digits[8..12],
        &digits[12..16],
        &digits[16..20],
        &digits[20..]
    );
    let entry = c.deliveries.pending_messages.get(&kept).unwrap();
    assert_eq!((entry.0.as_str(), entry.2), ("psst", true));
    let data = whole(c.send_private_message("1122334455667788", Some((vec![1, 2], vec![8; 64]))).unwrap());
    let p = parse_bitchat_packet(&data).unwrap();
    assert_eq!(p.payload, vec![1, 2]);
    assert_eq!(audience(&p, "1122334455667788"), Audience::Me);
    assert_eq!(audience(&p, ME), Audience::Other);
}

#[test]
fn large_messages_are_sent_in_pieces() {
    let c = client();
    match c.send_message(vec![1; 500], vec![8; 64]) {
        Transmission::Pieces { fragments, .. } => assert_eq!(fragments.len(), 4),
        Transmission::Whole { .. } => panic!(),
    }
}

#[test]
fn sealed_messages_are_opened_with_the_key() {
    let mut c = client();
    let payload = c.begin_sealed_message("#safe", "hidden", Some(vec![5, 6, 7]));
    assert_eq!(only_pending(&c), 1);
    let data = whole(c.send_message(payload, vec![8; 64]));
    let mut other = Client::new(ANN.to_string(), None);
    let p = other.open_packet(&data).unwrap();
    let message = match other.take_message(&p.sender_id_str, &p.payload) {
        Intake::New { message, .. } => message,
        _ => panic!(),
    };
    assert!(other.channels.protected.contains_key("#safe"));
    match other.channels.read_body(&message, false) {
        Body::Readable(text) => assert_eq!(text, "[Encrypted message - join channel with password]"),
        Body::Sealed { .. } => panic!(),
    }
    other.channels.set_key("#safe".to_string(), [4; 32]);
    match other.channels.read_body(&message, false) {
        Body::Sealed { bytes, key } => assert_eq!((bytes, key), (vec![5, 6, 7], [4; 32])),
        Body::Readable(_) => panic!(),
    }
}

#[test]
fn keys_are_offered_to_everyone() {
    let identity = PublicIdentity { combined_public_key: vec![1, 2, 3], fingerprint: "f".to_string() };
    let p = parse_bitchat_packet(&key_exchange(ME, &identity)).unwrap();
    assert_eq!(p.msg_type, MessageType::KeyExchange);
    assert_eq!(p.payload, vec![1, 2, 3]);
    let mut c = client();
    let q = packet(ANN, None, MessageType::KeyExchange, &[9]);
    assert!(c.answers_key_exchange(&q));
    introduce(&mut c, ANN, "ann");
    assert!(!c.answers_key_exchange(&q));
}

#[test]
fn own_and_broken_packets_are_not_opened() {
    let c = client();
    assert!(c.open_packet(&encode_packet(0, ME, None, MessageType::Leave, vec![], None)).is_none());
    assert!(c.open_packet(&encode_packet(0, ANN, None, MessageType::Leave, vec![], None)).is_some());
    assert!(c.open_packet(&[1, 2, 3]).is_none());
}

#[test]
fn packets_are_for_everyone_or_for_one() {
    let everyone = packet(ANN, None, MessageType::Message, &[]);
    assert_eq!(audience(&everyone, ME), Audience::Everyone);
    let fragment = packet(ANN, None, MessageType::FragmentStart, &[]);
    assert_eq!(audience(&fragment, ME), Audience::Everyone);
    let one = packet(ANN, Some("a1b2c3d400000000"), MessageType::Message, &[]);
    assert_eq!(audience(&one, "a1b2c3d400000000"), Audience::Me);
    assert_eq!(audience(&one, ME), Audience::Other);
}

#[test]
fn blocked_peers_are_dropped() {
    let mut c = Client::new("a1b2c3d400000000".to_string(), None);
    c.blocked_peers.insert("bad".to_string(), ());
    let everyone = packet(ANN, None, MessageType::Message, &[]);
    let mine = packet(ANN, Some("a1b2c3d400000000"), MessageType::Message, &[]);
    let other = packet(ANN, Some("ffffffff00000000"), MessageType::Message, &[]);
    assert!(c.is_blocked(Some("bad")) && !c.is_blocked(Some("good")) && !c.is_blocked(None));
    for p in [&everyone, &mine, &other] {
        assert_eq!(c.route_message(p, Some("bad"), false), Route::Over(Fate::Dropped));
        assert_eq!(c.route_message(p, Some("bad"), true), Route::Over(Fate::Dropped));
    }
    assert_eq!(c.route_message(&everyone, Some("good"), false), Route::Read);
    assert_eq!(c.route_message(&mine, None, false), Route::Decrypt);
    assert_eq!(c.route_message(&other, None, false), Route::Over(Fate::Passed));
    assert_eq!(c.route_message(&everyone, None, true), Route::Read);
    assert_eq!(c.route_message(&mine, None, true), Route::Decrypt);
    assert_eq!(c.route_message(&other, None, true), Route::Read);
}

#[test]
fn packets_are_passed_on_with_less_to_live() {
    let mut data = encode_packet(0, ANN, None, MessageType::Message, vec![3], None);
    let mut hops = 0;
    while let Some(next) = relay_copy(&data) {
        assert_eq!(next[2], data[2] - 1);
        assert_eq!((&next[..2], &next[3..]), (&data[..2], &data[3..]));
        data = next;
        hops += 1;
    }
    assert_eq!(hops, 6);
    data[2] = 0;
    assert!(relay_copy(&data).is_none());
}

#[test]
fn what_is_passed_on_depends_on_its_fate() {
    let data = encode_packet(0, ANN, None, MessageType::Message, vec![3], None);
    let fates = [
        (Fate::Dropped, false, false),
        (Fate::Passed, true, true),
        (Fate::Incomplete, false, true),
        (Fate::Unreadable, false, true),
        (Fate::Repeated, false, true),
        (Fate::Discarded, false, false),
        (Fate::Shown, true, true),
    ];
    for (fate, alone, piece) in fates {
        assert_eq!(pass_on(fate, false, &data).is_some(), alone);
        assert_eq!(pass_on(fate, true, &data).is_some(), piece);
    }
}

#[test]
fn unreadable_messages_change_nothing() {
    let mut c = client();
    assert!(matches!(c.take_message(ANN, &[]), Intake::Over(Fate::Unreadable)));
    assert!(matches!(c.take_message(ANN, &[0x04]), Intake::Over(Fate::Unreadable)));
    assert_eq!(c.channels.discovered.len(), 0);
}

#[test]
fn senders_are_shown_by_their_nickname() {
    let mut c = client();
    introduce(&mut c, ANN, "  ann ");
    let payload = encode_plain_message([1; 16], "hi", None, false, ANN);
    match c.take_message(ANN, &payload) {
        Intake::New { sender_nick, .. } => assert_eq!(sender_nick, "ann"),
        _ => panic!(),
    }
}

#[test]
fn padded_private_messages_are_read() {
    let mut c = client();
    let mut padded = encode_plain_message([2; 16], "psst", None, true, ANN);
    padded.extend_from_slice(&[5; 5]);
    let payload = private_payload(Some(padded)).unwrap();
    match c.take_message(ANN, &payload) {
        Intake::New { message, .. } => assert_eq!(message.content, "psst"),
        _ => panic!(),
    }
    assert_eq!(private_payload(None), Err(Fate::Dropped));
}

#[test]
fn messages_are_shown_where_they_belong() {
    assert!(matches!(present(true, Some("#c"), "hi"), Presentation::Private));
    assert!(matches!(present(true, None, "\u{2602}DUMMY\u{2602} x"), Presentation::Discard));
    assert!(matches!(present(false, None, "\u{2602}DUMMY\u{2602} x"), Presentation::Public));
    assert!(matches!(present(false, Some("#c"), "hi"), Presentation::Channel(c) if c == "#c"));
    assert!(matches!(present(true, None, "\u{2602}DUMMY"), Presentation::Private));
}

#[test]
fn messages_are_confirmed_once() {
    let mut c = client();
    let m = parse_bitchat_message_payload(&encode_plain_message([1; 16], "hi", None, true, ANN)).unwrap();
    let ack = c.confirm(&m, true).unwrap();
    assert_eq!(ack.ack_id.len(), 36);
    assert_eq!(ack.original_message_id, "01".repeat(16));
    assert_eq!((ack.recipient_id.as_str(), ack.recipient_nickname.as_str(), ack.hop_count), (ME, "me", 1));
    assert!(c.deliveries.sent_acks.contains(&format!("{}-{}", m.id, ME)));
    assert!(c.confirm(&m, true).is_none());
    let public = parse_bitchat_message_payload(&encode_plain_message([2; 16], "hi", None, false, ANN)).unwrap();
    assert!(c.confirm(&public, false).is_none());
}

#[test]
fn crowded_channels_are_not_confirmed() {
    let mut c = client();
    for i in 0..9 {
        introduce(&mut c, &format!("0000000{}", i), "someone");
    }
    let m = |id: u8| {
        parse_bitchat_message_payload(&encode_plain_message([id; 16], "hi", Some("#c"), false, ANN)).unwrap()
    };
    assert!(c.confirm(&m(1), false).is_some());
    introduce(&mut c, "0000000a", "one more");
    assert!(c.confirm(&m(2), false).is_none());
    assert!(c.confirm(&m(2), true).is_some());
}

#[test]
fn confirmations_travel_three_hops() {
    let data = client().ack_packet("1122334455667788", vec![1, 2]);
    let p = parse_bitchat_packet(&data).unwrap();
    assert_eq!((p.msg_type, p.ttl), (MessageType::DeliveryAck, 3));
    assert_eq!(p.recipient_id_str.as_deref(), Some("1122334455667788"));
    assert_eq!(p.payload, vec![1, 2]);
}

#[test]
fn confirmations_are_routed() {
    let c = Client::new("a1b2c3d400000000".to_string(), None);
    let mut data = encode_packet(0, ANN, Some("a1b2c3d400000000"), MessageType::DeliveryAck, vec![], None);
    assert_eq!(c.route_ack(&parse_bitchat_packet(&data).unwrap(), true), AckRoute::Read);
    data[2] = 3;
    assert_eq!(c.route_ack(&parse_bitchat_packet(&data).unwrap(), true), AckRoute::Decrypt);
    assert_eq!(c.route_ack(&parse_bitchat_packet(&data).unwrap(), false), AckRoute::Read);
    assert_eq!(c.route_ack(&packet(ANN, None, MessageType::DeliveryAck, &[]), true), AckRoute::PassOn);
}

#[test]
fn confirmations_are_reported_once() {
    let mut c = client();
    c.deliveries.track_message("m".to_string(), "hi".to_string(), true);
    let ack = DeliveryAck {
        original_message_id: "m".to_string(),
        ack_id: "x".to_string(),
        recipient_id: ANN.to_string(),
        recipient_nickname: "ann".to_string(),
        timestamp: 0,
        hop_count: 1,
    };
    assert_eq!(c.take_ack(&ack).as_deref(), Some("ann"));
    assert_eq!(c.take_ack(&ack), None);
}

#[test]
fn peers_come_and_go() {
    let mut c = client();
    let hello = packet(ANN, None, MessageType::Announce, b" ann\n");
    assert_eq!(c.take_announce(&hello), ("ann".to_string(), true));
    assert_eq!(c.take_announce(&hello), ("ann".to_string(), false));
    let room = packet(ANN, None, MessageType::Leave, b"#rust ");
    for (mode, shown) in [
        (ChatMode::Public, false),
        (ChatMode::Channel("#rust".to_string()), true),
        (ChatMode::Channel("#go".to_string()), false),
    ] {
        match c.take_leave(&room, &mode) {
            Departure::Channel { nickname, channel, is_shown } => {
                assert_eq!((nickname.as_str(), channel.as_str(), is_shown), ("ann", "#rust", shown));
            },
            Departure::Peer(_) => panic!(),
        }
    }
    assert!(c.peers.contains(ANN));
    match c.take_leave(&packet(ANN, None, MessageType::Leave, b"bye"), &ChatMode::Public) {
        Departure::Peer(words) => assert_eq!(words, "bye"),
        Departure::Channel { .. } => panic!(),
    }
    assert!(!c.peers.contains(ANN));
}

#[test]
fn announced_channels_are_noted() {
    let mut c = client();
    let p = packet(ANN, None, MessageType::ChannelAnnounce, b"#c|1|01020304|k");
    assert_eq!(c.take_channel_announce(&p).as_deref(), Some("#c"));
    assert!(c.channels.protected.contains_key("#c"));
    assert_eq!(c.channels.creators.get("#c").map(|s| s.as_str()), Some(ANN));
    assert_eq!(c.take_channel_announce(&packet(ANN, None, MessageType::ChannelAnnounce, b"#c|1")), None);
}

#[test]
fn messages_in_pieces_are_completed() {
    let text = "long ".repeat(200);
    let payload = encode_plain_message([3; 16], &text, None, false, ANN);
    let data = encode_packet(0, ANN, None, MessageType::Message, payload, Some(vec![1; 64]));
    let mut c = client();
    let count = split_packet(&data, [6; 8]).len();
    for n in 0..count {
        let fragment = split_packet(&data, [6; 8]).remove(count - 1 - n);
        let p = c.open_packet(&create_fragment_packet(ANN, fragment)).unwrap();
        let done = c.take_fragment(&p);
        if n + 1 < count {
            assert_eq!(done.unwrap_err(), Fate::Incomplete);
        } else {
            let whole = done.unwrap();
            assert_eq!(c.route_message(&whole, None, true), Route::Read);
            match c.take_message(&whole.sender_id_str, &whole.payload) {
                Intake::New { message, .. } => assert_eq!(message.content, text),
                _ => panic!(),
            }
        }
    }
}

#[test]
fn only_chat_messages_come_in_pieces() {
    let mut c = client();
    let data = encode_packet(0, ANN, None, MessageType::Leave, vec![7; 200], None);
    for fragment in split_packet(&data, [6; 8]) {
        let p = c.open_packet(&create_fragment_packet(ANN, fragment)).unwrap();
        assert_eq!(c.take_fragment(&p).unwrap_err(), Fate::Incomplete);
    }
    assert_eq!(c.fragments.fragments.len(), 0);
    let short = packet(ANN, None, MessageType::FragmentStart, &[0; 12]);
    assert_eq!(c.take_fragment(&short).unwrap_err(), Fate::Incomplete);
}

#[test]
fn sealed_payloads_name_their_channel() {
    let mut c = client();
    let payload = encode_sealed_message([4; 16], "#safe", Some(vec![1]), ANN);
    assert!(matches!(c.take_message(ANN, &payload), Intake::New { .. }));
    assert!(c.channels.protected.contains_key("#safe"));
}

#[test]
fn messages_are_settled() {
    let mut c = client();
    let m = |id: u8, private: bool| {
        parse_bitchat_message_payload(&encode_plain_message([id; 16], "hi", None, private, ANN)).unwrap()
    };
    let s = c.settle(&m(1, true), "\u{2602}DUMMY\u{2602}", true, false);
    assert!(matches!(s.presentation, Presentation::Discard));
    assert_eq!(s.fate, Fate::Discarded);
    assert!(s.ack.is_none());
    let s = c.settle(&m(1, true), "hi", true, true);
    assert!(matches!(s.presentation, Presentation::Private));
    assert_eq!(s.fate, Fate::Shown);
    assert!(s.ack.is_none());
    let s = c.settle(&m(1, true), "hi", true, false);
    assert_eq!(s.ack.unwrap().original_message_id, "01".repeat(16));
    let s = c.settle(&m(1, true), "hi", true, false);
    assert_eq!(s.fate, Fate::Shown);
    assert!(s.ack.is_none());
    let s = c.settle(&m(2, false), "hi", false, false);
    assert!(matches!(s.presentation, Presentation::Public));
    assert!(s.ack.is_none());
}

#[test]
fn packets_are_handled_by_their_type() {
    let expected = [
        (0x01, Handling::Announce),
        (0x02, Handling::KeyExchange),
        (0x03, Handling::Leave),
        (0x04, Handling::Message),
        (0x05, Handling::Piece),
        (0x06, Handling::Piece),
        (0x07, Handling::Piece),
        (0x08, Handling::ChannelAnnounce),
        (0x09, Handling::Nothing),
        (0x0A, Handling::DeliveryAck),
        (0x0B, Handling::Nothing),
        (0x0C, Handling::Nothing),
    ];
    for (code, h) in expected {
        assert_eq!(handling(MessageType::from_code(code).unwrap()), h);
    }
}

#[test]
fn confirmations_are_encrypted_where_they_can_be() {
    assert_eq!(ack_payload(vec![1], true, Some(vec![2])), vec![2]);
    assert_eq!(ack_payload(vec![1], true, None), vec![1]);
    assert_eq!(ack_payload(vec![1], false, Some(vec![2])), vec![1]);
    assert_eq!(received_ack(vec![1], AckRoute::Decrypt, Some(vec![2])), vec![2]);
    assert_eq!(received_ack(vec![1], AckRoute::Decrypt, None), vec![1]);
    assert_eq!(received_ack(vec![1], AckRoute::Read, Some(vec![2])), vec![1]);
}

#[test]
fn packets_for_four_byte_identifiers_are_misread() {
    let c = client();
    let data = whole(c.send_private_message(ANN, Some((vec![1, 2, 3, 4, 5, 6], vec![8; 64]))).unwrap());
    let p = parse_bitchat_packet(&data).unwrap();
    assert_eq!(p.recipient_id, Some(vec![1, 2, 3, 4, 8, 8, 8, 8]));
    assert_eq!(p.payload, vec![5, 6]);
    let ann = Client::new(ANN.to_string(), None);
    assert_eq!(ann.route_message(&p, None, false), Route::Over(Fate::Passed));
    let short = whole(c.send_private_message(ANN, Some((vec![1, 2, 3], vec![8; 64]))).unwrap());
    assert_eq!(parse_bitchat_packet(&short).unwrap_err(), "Packet too short for signature");
    let ack = c.ack_packet(ANN, vec![9, 9, 9, 9, 7]);
    let p = parse_bitchat_packet(&ack).unwrap();
    assert_eq!(p.recipient_id, Some(vec![1, 2, 3, 4, 9, 9, 9, 9]));
    assert_eq!(p.payload, vec![7]);
    assert_eq!(parse_bitchat_packet(&c.ack_packet(ANN, vec![9])).unwrap_err(), "Packet too short for recipient ID");
}

#[test]
fn what_cannot_be_encrypted_is_not_sent() {
    let mut c = client();
    c.begin_private_message("psst");
    assert_eq!(only_pending(&c), 1);
    assert!(c.send_private_message(ANN, None).is_none());
    assert_eq!(only_pending(&c), 1);
}

#[test]
fn replies_go_to_whoever_was_shown_last_in_private() {
    let shown = |last: Option<(String, String)>, who: &str, p: Presentation| next_reply_target(last, who, "nick", &p);
    let ann = Some((ANN.to_string(), "nick".to_string()));
    assert_eq!(shown(None, ANN, Presentation::Private), ann);
    assert_eq!(shown(ann.clone(), "0a0b0c0d", Presentation::Public), ann);
    assert_eq!(shown(ann.clone(), "0a0b0c0d", Presentation::Discard), ann);
    assert_eq!(shown(ann.clone(), "0a0b0c0d", Presentation::Channel("#c".to_string())), ann);
    assert_eq!(shown(ann, "0a0b0c0d", Presentation::Private).unwrap().0, "0a0b0c0d");
    assert_eq!(shown(None, ANN, Presentation::Public), None);
    let last = shown(None, ANN, present(true, None, "hi"));
    match client().handle_command("/reply", &ChatMode::Public, last.as_ref()) {
        Action::EnterDm { nickname, peer_id } => assert_eq!((nickname.as_str(), peer_id.as_str()), ("nick", ANN)),
        _ => panic!(),
    }
}

#[test]
fn a_message_is_new_once_whoever_sends_it() {
    let mut c = client();
    let payload = encode_plain_message([1; 16], "hi", None, false, ANN);
    let other = encode_plain_message([2; 16], "ho", None, false, ANN);
    assert!(matches!(c.take_message(ANN, &payload), Intake::New { .. }));
    assert!(matches!(c.take_message(ANN, &other), Intake::New { .. } | Intake::Over(Fate::Repeated)));
    introduce(&mut c, ANN, "ann");
    assert!(matches!(c.take_message("0a0b0c0d", &payload), Intake::Over(Fate::Repeated)));
}
