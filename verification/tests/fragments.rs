use bitchat::ble::{
    after_piece, create_channel_announce_packet, new_peer_id, offers_bitchat, parse_channel_announce, plan_transmission,
    plan_transmission_with, read_announcement, relay_delay_ms, write_announcement, write_mode, AfterPiece, Transmission, WriteMode,
};
use bitchat::collector::FragmentCollector;
use bitchat::fragmentation::{create_fragment_packet, parse_fragment, should_fragment, split_packet, FragmentType};
use bitchat::outbox::dispatch;
use bitchat::protocol::{parse_bitchat_packet, MessageType, BITCHAT_SERVICE_UUID};

fn bytes(n: usize) -> Vec<u8> {
    (0..n).map(|i| (i % 251) as u8).collect()
}

#[test]
fn packets_are_cut_at_one_hundred_and_fifty_bytes() {
    let packet = bytes(501);
    let fragments = split_packet(&packet, [7; 8]);
    assert_eq!(fragments.len(), 4);
    let sizes: Vec<usize> = fragments.iter().map(|f| f.data.len()).collect();
    assert_eq!(sizes, vec![150, 150, 150, 51]);
    let types: Vec<FragmentType> = fragments.iter().map(|f| f.fragment_type).collect();
    assert_eq!(types, vec![FragmentType::Start, FragmentType::Continue, FragmentType::Continue, FragmentType::End]);
    for (i, f) in fragments.iter().enumerate() {
        assert_eq!((f.index as usize, f.total, f.original_type), (i, 4, 4));
        assert_eq!(f.fragment_id, [7; 8]);
    }
    let whole: Vec<u8> = fragments.into_iter().flat_map(|f| f.data).collect();
    assert_eq!(whole, packet);
}

#[test]
fn cutting_has_no_empty_last_piece() {
    assert_eq!(split_packet(&bytes(600), [0; 8]).len(), 4);
    assert_eq!(split_packet(&bytes(1), [0; 8]).len(), 1);
    assert_eq!(split_packet(&[], [0; 8]).len(), 0);
}

#[test]
fn fragment_packets_are_read_back() {
    let types = [
        (FragmentType::Start, MessageType::FragmentStart),
        (FragmentType::Continue, MessageType::FragmentContinue),
        (FragmentType::End, MessageType::FragmentEnd),
    ];
    for (fragment_type, message_type) in types {
        let mut fragment = split_packet(&bytes(400), [3; 8]).remove(1);
        fragment.fragment_type = fragment_type;
        let sent = fragment.serialize();
        let data = create_fragment_packet("a1b2c3d4", fragment);
        assert!(!should_fragment(&data));
        let packet = parse_bitchat_packet(&data).unwrap();
        assert_eq!(packet.msg_type, message_type);
        assert_eq!(packet.payload, sent);
        let read = parse_fragment(fragment_type, &packet.payload).unwrap();
        assert_eq!((read.index, read.total), (1, 3));
        assert_eq!(read.data, bytes(400)[150..300].to_vec());
    }
}

#[test]
fn large_packets_may_be_cut() {
    assert!(!should_fragment(&[0; 180]));
    assert!(should_fragment(&[0; 181]));
}

#[test]
fn pieces_are_put_together_in_any_order() {
    let packet = bytes(700);
    let orders: [&[usize]; 4] =
        [&[0, 1, 2, 3, 4], &[4, 3, 2, 1, 0], &[2, 0, 4, 1, 3], &[1, 1, 0, 3, 3, 4, 0, 2]];
    for order in orders {
        let mut collector = FragmentCollector::new();
        for (n, i) in order.iter().enumerate() {
            let f = split_packet(&packet, [9; 8]).remove(*i);
            let r = collector.add_fragment(
                f.fragment_id,
                f.index,
                f.total,
                f.original_type,
                f.data,
                "a1b2c3d4".to_string(),
            );
            if n + 1 < order.len() {
                assert!(r.is_none());
            } else {
                assert_eq!(r, Some((packet.clone(), "a1b2c3d4".to_string())));
            }
        }
        assert_eq!(collector.fragments.len(), 0);
        assert_eq!(collector.metadata.len(), 0);
    }
}

#[test]
fn packets_do_not_get_mixed_up() {
    let mut collector = FragmentCollector::new();
    let mut add = |id: u8, index: u16, data: u8, who: &str| {
        collector.add_fragment([id; 8], index, 2, 4, vec![data], who.to_string())
    };
    assert!(add(1, 0, 10, "ann").is_none());
    assert!(add(2, 1, 21, "bob").is_none());
    assert_eq!(add(1, 1, 11, "eve"), Some((vec![10, 11], "ann".to_string())));
    assert_eq!(add(2, 0, 20, "bob"), Some((vec![20, 21], "bob".to_string())));
}

#[test]
fn a_collector_knows_its_first_fragment() {
    let mut collector = FragmentCollector::new();
    assert!(collector.add_fragment([0xAB; 8], 1, 3, 4, vec![1], "ann".to_string()).is_none());
    assert!(collector.fragments.contains_key("abababababababab"));
    assert_eq!(collector.metadata.get("abababababababab"), Some(&(3, 4, "ann".to_string())));
}

#[test]
fn pieces_with_a_gap_are_kept() {
    let mut collector = FragmentCollector::new();
    assert!(collector.add_fragment([1; 8], 0, 2, 4, vec![1], "ann".to_string()).is_none());
    assert!(collector.add_fragment([1; 8], 5, 2, 4, vec![2], "ann".to_string()).is_none());
    assert_eq!(collector.fragments.len(), 1);
}

#[test]
fn a_later_total_counts() {
    let mut collector = FragmentCollector::new();
    assert!(collector.add_fragment([1; 8], 0, 9, 4, vec![1], "ann".to_string()).is_none());
    let r = collector.add_fragment([1; 8], 1, 2, 4, vec![2], "ann".to_string());
    assert_eq!(r, Some((vec![1, 2], "ann".to_string())));
}

#[test]
fn no_pieces_at_all_are_never_complete() {
    let mut collector = FragmentCollector::new();
    assert!(collector.add_fragment([1; 8], 0, 0, 4, vec![1], "ann".to_string()).is_none());
}

#[test]
fn packets_of_five_hundred_bytes_are_sent_whole() {
    match plan_transmission(bytes(500)) {
        Transmission::Whole { data, mode } => {
            assert_eq!(data, bytes(500));
            assert_eq!(mode, WriteMode::WithoutResponse);
        },
        Transmission::Pieces { .. } => panic!(),
    }
    match plan_transmission_with(bytes(501), [5; 8]) {
        Transmission::Whole { .. } => panic!(),
        Transmission::Pieces { fragments, mode } => {
            assert_eq!(fragments.len(), 4);
            assert_eq!(mode, WriteMode::WithoutResponse);
            assert!(fragments.iter().all(|f| f.fragment_id == [5; 8]));
        },
    }
}

#[test]
fn the_pieces_of_two_packets_have_different_names() {
    let id = |t: Transmission| match t {
        Transmission::Pieces { fragments, .. } => fragments[0].fragment_id,
        Transmission::Whole { .. } => panic!(),
    };
    assert_ne!(id(plan_transmission(bytes(501))), id(plan_transmission(bytes(501))));
}

#[test]
fn dispatching_is_planning() {
    for n in [0, 180, 181, 500] {
        assert!(matches!(
            dispatch(bytes(n)),
            Transmission::Whole { data, mode: WriteMode::WithoutResponse } if data == bytes(n)
        ));
    }
    assert!(matches!(dispatch(bytes(501)), Transmission::Pieces { fragments: f, .. } if f.len() == 4));
}

#[test]
fn large_writes_are_confirmed() {
    assert_eq!(write_mode(512), WriteMode::WithoutResponse);
    assert_eq!(write_mode(513), WriteMode::WithResponse);
}

#[test]
fn devices_get_random_identifiers() {
    let id = new_peer_id();
    assert_eq!(id.len(), 8);
    assert!(id.chars().all(|c| c.is_ascii_digit() || ('a'..='f').contains(&c)));
    let others: Vec<String> = (0..8).map(|_| new_peer_id()).collect();
    assert!(others.iter().any(|o| *o != id));
}

#[test]
fn relays_wait_a_little() {
    let delays: Vec<u64> = (0..200).map(|_| relay_delay_ms()).collect();
    assert!(delays.iter().all(|d| 10 <= *d && *d < 50));
    assert!(delays.iter().any(|d| *d != delays[0]));
}

#[test]
fn devices_are_known_by_their_service() {
    assert!(offers_bitchat(&vec![1, BITCHAT_SERVICE_UUID]));
    assert!(!offers_bitchat(&vec![1, 2]));
    assert!(!offers_bitchat(&vec![]));
}

#[test]
fn announcements_have_four_parts() {
    assert_eq!(write_announcement("#c", true, "a1b2c3d4", Some("k")), "#c|1|a1b2c3d4|k");
    assert_eq!(write_announcement("#c", false, "a1b2c3d4", None), "#c|0|a1b2c3d4|");
    let data = create_channel_announce_packet("a1b2c3d4", "#c", true, Some("k"));
    let packet = parse_bitchat_packet(&data).unwrap();
    assert_eq!(packet.msg_type, MessageType::ChannelAnnounce);
    assert_eq!(packet.ttl, 5);
    assert_eq!(packet.payload, b"#c|1|a1b2c3d4|k".to_vec());
    assert_eq!(packet.recipient_id, Some(vec![255; 8]));
}

#[test]
fn announcements_are_read_back() {
    let a = parse_channel_announce(write_announcement("#c", true, "ann", Some("k")).as_bytes()).unwrap();
    assert_eq!((a.channel.as_str(), a.is_protected), ("#c", true));
    assert_eq!((a.creator.as_str(), a.key_commitment.as_str()), ("ann", "k"));
    let a = read_announcement("#c|yes|").unwrap();
    assert!(!a.is_protected);
    assert_eq!((a.creator.as_str(), a.key_commitment.as_str()), ("", ""));
    assert_eq!(read_announcement("#c|1|ann|k|more").unwrap().key_commitment, "k");
    assert!(read_announcement("#c|1").is_none());
    assert!(read_announcement("").is_none());
    assert_eq!(parse_channel_announce(b"#\xFF|1|x").unwrap().channel, "#\u{FFFD}");
}

#[test]
fn sending_pieces_stops_at_the_first_failure() {
    assert_eq!(after_piece(0, 3, true), AfterPiece::Pause);
    assert_eq!(after_piece(1, 3, true), AfterPiece::Pause);
    assert_eq!(after_piece(2, 3, true), AfterPiece::Done);
    assert_eq!(after_piece(0, 1, true), AfterPiece::Done);
    assert_eq!(after_piece(0, 3, false), AfterPiece::GiveUp);
    assert_eq!(after_piece(2, 3, false), AfterPiece::GiveUp);
}
