use bitchat::channels::{text_of_opened, Body, Channels};
use bitchat::commands::{parse_command, Command};
use bitchat::delivery::{create_delivery_ack, delivery_ack_with, DeliveryTracker};
use bitchat::message::BitchatMessage;
use bitchat::peers::PeerDirectory;
use bitchat::seen::SeenMessages;
use bitchat::table::Table;
use bitchat::text::{
    cut_to, insert_sorted, join_texts, not_after, same_text, split_once, split_text, take_second_word, take_word,
    trim_text,
};
use bitchat::ble::read_announcement;

fn message(channel: Option<&str>, sealed: Option<Vec<u8>>, is_encrypted: bool) -> BitchatMessage {
    BitchatMessage {
        id: "id".to_string(),
        content: "content".to_string(),
        channel: channel.map(|c| c.to_string()),
        is_encrypted,
        encrypted_content: sealed,
    }
}

fn readable(body: Body) -> String {
    match body {
        Body::Readable(text) => text,
        Body::Sealed { .. } => panic!(),
    }
}

#[test]
fn white_space_is_trimmed() {
    assert_eq!(trim_text("  a b\t\n"), "a b");
    assert_eq!(trim_text("\u{2003}\u{00a0}x\u{3000}"), "x");
    assert_eq!(trim_text(" \r\n "), "");
    assert_eq!(trim_text(""), "");
    for c in ['\u{1c}', '\u{200b}', '\u{180e}', '\u{feff}', '\u{85}', '\u{b}', '\u{202f}', '\u{205f}', '\u{1680}'] {
        let s = format!("{}x{}", c, c);
        assert_eq!(trim_text(&s), s.trim());
    }
}

#[test]
fn trimming_twice_is_trimming_once() {
    for s in ["  a ", "a", "   ", " a  b "] {
        assert_eq!(trim_text(&trim_text(s)), trim_text(s));
    }
}

#[test]
fn words_are_found() {
    assert_eq!(take_word("  one two"), "one");
    assert_eq!(take_word("   "), "");
    assert_eq!(take_second_word("/j   #a b"), "#a");
    assert_eq!(take_second_word("/j "), "");
}

#[test]
fn texts_are_split() {
    assert_eq!(split_once("a b c", ' '), ("a".to_string(), Some("b c".to_string())));
    assert_eq!(split_once("abc", ' '), ("abc".to_string(), None));
    assert_eq!(split_once(" abc", ' '), ("".to_string(), Some("abc".to_string())));
    for s in ["a|b||c", "", "|", "abc", "|a|"] {
        let expected: Vec<String> = s.split('|').map(|p| p.to_string()).collect();
        assert_eq!(split_text(s, '|'), expected);
    }
}

#[test]
fn texts_are_cut_between_characters() {
    assert_eq!(cut_to("hello", 3), "hel");
    assert_eq!(cut_to("hello", 9), "hello");
    assert_eq!(cut_to("grün", 4), "grü");
    assert_eq!(cut_to("", 0), "");
}

#[test]
fn texts_are_ordered_by_their_characters() {
    let words = ["", "a", "B", "ab", "b", "ä", "zz", "\u{10000}", "\u{ffff}", "a b"];
    for a in words {
        for b in words {
            assert_eq!(not_after(a, b), a <= b);
            assert_eq!(same_text(a, b), a == b);
        }
    }
}

#[test]
fn sorted_lists_stay_sorted() {
    let mut list: Vec<String> = Vec::new();
    for word in ["m", "a", "z", "m", "B", ""] {
        insert_sorted(&mut list, word.to_string());
    }
    assert_eq!(list, vec!["", "B", "a", "m", "m", "z"]);
    assert_eq!(join_texts(&list, ", "), ", B, a, m, m, z");
    assert_eq!(join_texts(&vec![], ", "), "");
}

#[test]
fn tables_keep_one_value_for_a_key() {
    let mut table: Table<u8> = Table::new();
    table.insert("a".to_string(), 1);
    table.insert("b".to_string(), 2);
    table.insert("a".to_string(), 3);
    assert_eq!(table.len(), 2);
    assert_eq!(table.get("a"), Some(&3));
    assert_eq!(table.get("c"), None);
    assert_eq!(table.remove("a"), Some(3));
    assert_eq!(table.remove("a"), None);
    assert!(!table.contains_key("a"));
    assert_eq!(table.entries(), &vec![("b".to_string(), 2)]);
}

#[test]
fn seen_messages_are_recognised() {
    let mut seen = SeenMessages::new();
    let ids: Vec<String> = (0..100).map(|i| format!("message {}", i)).collect();
    for id in &ids {
        seen.insert(id);
        assert!(seen.contains(id));
    }
    assert!(ids.iter().all(|id| seen.contains(id)));
}

#[test]
fn nothing_was_seen_at_first() {
    let seen = SeenMessages::new();
    assert!((0..1000).all(|i| !seen.contains(&format!("{}", i))));
}

#[test]
fn few_messages_are_mistaken_for_others() {
    let mut seen = SeenMessages::new();
    for i in 0..500 {
        seen.insert(&format!("{}", i));
    }
    let mistaken = (0..10000).filter(|i| seen.contains(&format!("other {}", i))).count();
    assert!(mistaken < 400);
}

#[test]
fn peers_have_names() {
    let mut peers = PeerDirectory::new();
    assert_eq!(peers.len(), 0);
    assert!(peers.set_nickname("01", "ann".to_string()));
    assert!(peers.set_nickname("02", "bob".to_string()));
    assert!(!peers.set_nickname("01", "eve".to_string()));
    assert_eq!(peers.len(), 2);
    assert_eq!(peers.display_name("01"), "eve");
    assert_eq!(peers.display_name("03"), "03");
    assert_eq!(peers.find("bob").as_deref(), Some("02"));
    assert_eq!(peers.find("ann"), None);
    assert!(peers.set_nickname("03", "bob".to_string()));
    assert_eq!(peers.nicknames(), vec!["bob", "bob", "eve"]);
    assert!(["02", "03"].contains(&peers.find("bob").unwrap().as_str()));
    peers.remove("02");
    peers.remove("09");
    assert!(!peers.contains("02"));
    assert_eq!(peers.nicknames(), vec!["bob", "eve"]);
}

#[test]
fn messages_reveal_channels() {
    let mut channels = Channels::new();
    channels.note_message(&message(Some("#a"), None, false));
    channels.note_message(&message(Some("#b"), Some(vec![1]), true));
    channels.note_message(&message(None, None, true));
    assert!(channels.discovered.contains_key("#a") && channels.discovered.contains_key("#b"));
    assert_eq!(channels.discovered.len(), 2);
    assert!(!channels.protected.contains_key("#a"));
    assert!(channels.protected.contains_key("#b"));
}

#[test]
fn announcements_protect_and_unprotect() {
    let mut channels = Channels::new();
    channels.set_key("#a".to_string(), [1; 32]);
    channels.set_key("#b".to_string(), [2; 32]);
    channels.note_announcement(&read_announcement("#a|1|ann|k").unwrap());
    assert!(channels.protected.contains_key("#a"));
    assert_eq!(channels.creators.get("#a").map(|s| s.as_str()), Some("ann"));
    assert_eq!(channels.commitments.get("#a").map(|s| s.as_str()), Some("k"));
    assert_eq!(channels.key_of("#a"), Some([1; 32]));
    assert!(!channels.discovered.contains_key("#a"));
    channels.note_announcement(&read_announcement("#a|1||").unwrap());
    assert_eq!(channels.creators.get("#a").map(|s| s.as_str()), Some("ann"));
    assert_eq!(channels.commitments.get("#a").map(|s| s.as_str()), Some("k"));
    channels.note_announcement(&read_announcement("#a|0|bob|k2").unwrap());
    assert!(!channels.protected.contains_key("#a"));
    assert_eq!(channels.creators.get("#a").map(|s| s.as_str()), Some("bob"));
    assert_eq!(channels.commitments.len(), 0);
    assert_eq!(channels.key_of("#a"), None);
    assert_eq!(channels.key_of("#b"), Some([2; 32]));
}

#[test]
fn bodies_are_read_or_sealed() {
    let mut channels = Channels::new();
    assert_eq!(readable(channels.read_body(&message(Some("#a"), None, false), false)), "content");
    assert_eq!(readable(channels.read_body(&message(None, Some(vec![1]), true), false)), "content");
    let locked = message(Some("#a"), Some(vec![1, 2]), true);
    assert_eq!(readable(channels.read_body(&locked, false)), "[Encrypted message - join channel with password]");
    channels.set_key("#a".to_string(), [7; 32]);
    assert_eq!(
        readable(channels.read_body(&message(Some("#a"), None, true), false)),
        "[Encrypted message - no encrypted data]"
    );
    assert_eq!(readable(channels.read_body(&locked, true)), "content");
    match channels.read_body(&locked, false) {
        Body::Sealed { bytes, key } => {
            assert_eq!(bytes, vec![1, 2]);
            assert_eq!(key, [7; 32]);
        },
        Body::Readable(_) => panic!(),
    }
}

#[test]
fn opened_bodies_are_text() {
    assert_eq!(text_of_opened(Some(b"gr\xC3\xBCn".to_vec())), "grün");
    assert_eq!(text_of_opened(Some(vec![b'a', 0xC3])), "a\u{FFFD}");
    assert_eq!(text_of_opened(None), "[Encrypted message - decryption failed]");
}

#[test]
fn confirmations_are_sent_once() {
    let mut tracker = DeliveryTracker::new();
    assert!(tracker.should_send_ack("a"));
    assert!(!tracker.should_send_ack("a"));
    assert!(tracker.should_send_ack("b"));
    assert!(!tracker.should_send_ack("a"));
}

#[test]
fn deliveries_are_reported_once() {
    let mut tracker = DeliveryTracker::new();
    assert!(!tracker.mark_delivered("x"));
    tracker.track_message("x".to_string(), "hi".to_string(), true);
    tracker.track_message("y".to_string(), "ho".to_string(), false);
    let entry = tracker.pending_messages.get("x").unwrap();
    assert_eq!((entry.0.as_str(), entry.2), ("hi", true));
    assert!(tracker.mark_delivered("x"));
    assert!(!tracker.mark_delivered("x"));
    assert!(tracker.mark_delivered("y"));
}

#[test]
fn confirmations_say_who_received_what() {
    let ack = create_delivery_ack("m", "a1b2c3d4", "ann", 3);
    assert_eq!(ack.original_message_id, "m");
    assert_eq!(ack.recipient_id, "a1b2c3d4");
    assert_eq!(ack.recipient_nickname, "ann");
    assert_eq!(ack.hop_count, 3);
    assert_eq!(ack.ack_id.len(), 36);
    assert_ne!(ack.ack_id, create_delivery_ack("m", "a1b2c3d4", "ann", 3).ack_id);
    assert!(ack.timestamp > 1_500_000_000_000);
}

#[test]
fn confirmations_have_the_time_of_the_clock() {
    let now = || std::time::SystemTime::now().duration_since(std::time::UNIX_EPOCH).unwrap().as_millis() as u64;
    let before = now();
    let ack = create_delivery_ack("m", "a1b2c3d4", "ann", 3);
    assert!(before <= ack.timestamp && ack.timestamp <= now());
}

#[test]
fn a_confirmation_has_what_it_was_given() {
    let ack = delivery_ack_with([0xAB; 16], 1234, "m", "a1b2c3d4", "ann", 2);
    assert_eq!(ack.original_message_id, "m");
    assert_eq!(ack.ack_id, "abababab-abab-abab-abab-abababababab");
    assert_eq!(ack.recipient_id, "a1b2c3d4");
    assert_eq!(ack.recipient_nickname, "ann");
    assert_eq!((ack.timestamp, ack.hop_count), (1234, 2));
}

#[test]
fn lines_are_commands() {
    assert!(matches!(parse_command(""), Command::Nothing));
    assert!(matches!(parse_command("7"), Command::SwitchTo(7)));
    assert!(matches!(parse_command("0"), Command::SwitchTo(0)));
    assert!(matches!(parse_command("/help"), Command::Help));
    assert!(matches!(parse_command("/list"), Command::List));
    assert!(matches!(parse_command("/public"), Command::Public));
    assert!(matches!(parse_command("/reply"), Command::Reply));
    assert!(matches!(parse_command("/online"), Command::Online));
    assert!(matches!(parse_command("/w"), Command::Online));
    assert!(matches!(parse_command("/status"), Command::Status));
    assert!(matches!(parse_command("/exit"), Command::Exit));
    assert!(matches!(parse_command("/clear"), Command::Clear));
}

#[test]
fn names_are_trimmed_and_bounded() {
    assert!(matches!(parse_command("/name   ann lee "), Command::Rename(n) if n == "ann lee"));
    assert!(matches!(parse_command("/name  "), Command::NameMissing));
    assert!(matches!(parse_command("/name 12345678901234567890"), Command::Rename(_)));
    assert!(matches!(parse_command("/name 123456789012345678901"), Command::NameTooLong));
    assert!(matches!(parse_command("/name üüüüüüüüüüü"), Command::NameTooLong));
    assert!(matches!(parse_command("/name"), Command::Unknown(w) if w == "/name"));
}

#[test]
fn private_lines_have_a_nickname() {
    match parse_command("/dm ann  how are you") {
        Command::Dm { nickname, message } => {
            assert_eq!(nickname, "ann");
            assert_eq!(message.as_deref(), Some(" how are you"));
        },
        _ => panic!(),
    }
    assert!(matches!(parse_command("/dm ann"), Command::Dm { message: None, .. }));
    assert!(matches!(parse_command("/dm "), Command::Dm { nickname, message: None } if nickname.is_empty()));
    assert!(matches!(parse_command("/dm  x"), Command::Dm { nickname, message: Some(_) } if nickname.is_empty()));
}

#[test]
fn channels_start_with_a_hash() {
    assert!(matches!(parse_command("/j #rust now"), Command::Join(c) if c == "#rust"));
    assert!(matches!(parse_command("/join \t#rust"), Command::Join(c) if c == "#rust"));
    assert!(matches!(parse_command("/join rust"), Command::ChannelInvalid));
    assert!(matches!(parse_command("/j "), Command::ChannelInvalid));
}

#[test]
fn everything_else_is_unknown_or_said() {
    assert!(matches!(parse_command("/frob nicate"), Command::Unknown(w) if w == "/frob"));
    assert!(matches!(parse_command("/help me"), Command::Unknown(w) if w == "/help"));
    assert!(matches!(parse_command("/"), Command::Unknown(w) if w == "/"));
    assert!(matches!(parse_command("hello"), Command::Say(t) if t == "hello"));
    assert!(matches!(parse_command("42"), Command::Say(t) if t == "42"));
    assert!(matches!(parse_command("x"), Command::Say(t) if t == "x"));
    assert!(matches!(parse_command("\u{0663}"), Command::Say(_)));
    assert!(matches!(parse_command(" /help"), Command::Say(_)));
}
