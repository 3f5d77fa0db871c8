use base64::engine::general_purpose::STANDARD;
use base64::Engine;
use uuid::Uuid;
use xlmate::event_listener::{HorizonEvent, SorobanEventListener};
use xlmate::paging::{cursor_stays, read_position, Position};
use xlmate::poll::{events_request, PollReply, PollStep};
use xlmate::signal::StakeStatus;
use xlmate::text::{contains_text, decimal_text, same_text};
use xlmate::topic::{decoded_topic_is_stake, text_names_stake, topic_is_stake};

fn event(contract_id: &str, symbol: &str, token: &str, tx_hash: &str, ledger: u32) -> HorizonEvent {
    HorizonEvent {
        event_type: "contract".to_string(),
        contract_id: Some(contract_id.to_string()),
        paging_token: token.to_string(),
        topic: vec![STANDARD.encode(symbol.as_bytes())],
        ledger,
        transaction_hash: tx_hash.to_string(),
    }
}

#[test]
fn request_names_contract_cursor_and_limit() {
    assert_eq!(
        events_request("https://horizon.stellar.org", "CABC", "now"),
        "https://horizon.stellar.org/events?type=contract&contract_id=CABC&cursor=now&limit=200"
    );
}

#[test]
fn new_listener_starts_at_now_with_nothing_to_poll() {
    let listener = SorobanEventListener::new("https://horizon.stellar.org");
    assert_eq!(listener.horizon_url(), "https://horizon.stellar.org");
    assert_eq!(listener.cursor(), "now");
    assert!(listener.begin_poll().is_none());
}

#[test]
fn cycle_asks_for_every_contract_once_with_the_same_cursor() {
    let mut listener = SorobanEventListener::new("https://h");
    let _a = listener.track_match(Uuid::new_v4(), "CA");
    let _b = listener.track_match(Uuid::new_v4(), "CB");
    let _c = listener.track_match(Uuid::new_v4(), "CC");
    let mut cycle = listener.begin_poll().unwrap();
    let mut seen = Vec::new();
    while let Some(url) = listener.next_request(&cycle) {
        let contract_id = cycle.contract_id().unwrap().to_string();
        assert_eq!(
            url,
            format!("https://h/events?type=contract&contract_id={}&cursor=now&limit=200", contract_id)
        );
        let events = vec![event(&contract_id, "game_started", "77-1", "tx", 7)];
        seen.push(contract_id);
        let step = listener.take_reply(&mut cycle, PollReply::Events(events));
        assert!(matches!(step, PollStep::Processed(None)));
    }
    seen.sort();
    assert_eq!(seen, vec!["CA", "CB", "CC"]);
    assert!(cycle.contract_id().is_none());
    assert_eq!(listener.cursor(), "77-1");
}

#[test]
fn failed_request_ends_the_cycle() {
    let mut listener = SorobanEventListener::new("https://h");
    let _a = listener.track_match(Uuid::new_v4(), "CA");
    let _b = listener.track_match(Uuid::new_v4(), "CB");
    let mut cycle = listener.begin_poll().unwrap();
    assert!(matches!(listener.take_reply(&mut cycle, PollReply::Failed), PollStep::Aborted));
    assert!(listener.next_request(&cycle).is_none());
    assert_eq!(listener.cursor(), "now");
}

#[test]
fn refused_request_passes_the_contract_over() {
    let mut listener = SorobanEventListener::new("https://h");
    let _a = listener.track_match(Uuid::new_v4(), "CA");
    let _b = listener.track_match(Uuid::new_v4(), "CB");
    let mut cycle = listener.begin_poll().unwrap();
    let first = cycle.contract_id().unwrap().to_string();
    assert!(matches!(listener.take_reply(&mut cycle, PollReply::Refused), PollStep::Skipped));
    let second = cycle.contract_id().unwrap().to_string();
    assert!(first != second);
    assert!(listener.next_request(&cycle).is_some());
}

#[test]
fn first_stake_event_of_a_batch_starts_the_match() {
    let mut listener = SorobanEventListener::new("https://h");
    let match_id = Uuid::new_v4();
    let mut rx = listener.track_match(match_id, "CA");
    let _b = listener.track_match(Uuid::new_v4(), "CB");
    let events = vec![
        event("CA", "game_created", "10-1", "tx0", 10),
        event("CA", "staked", "11-1", "tx1", 11),
        event("CA", "staked", "12-1", "tx2", 12),
        event("CA", "other", "13-1", "tx3", 13),
    ];
    let report = listener.process_events("CA", &events).unwrap();
    assert_eq!(report.match_id, match_id);
    assert_eq!(report.transaction_hash, "tx1");
    let signal = rx.try_recv().unwrap();
    assert_eq!(signal.transaction_hash, "tx1");
    assert_eq!(signal.ledger, 11);
    assert!(rx.try_recv().is_err());
    assert_eq!(listener.cursor(), "13-1");
    assert_eq!(listener.tracked_match("CB").unwrap().status(), StakeStatus::AwaitingStake);
}

#[test]
fn two_batches_lead_where_one_leads() {
    let mut split = SorobanEventListener::new("https://h");
    let mut whole = SorobanEventListener::new("https://h");
    let match_id = Uuid::new_v4();
    let mut split_rx = split.track_match(match_id, "CA");
    let mut whole_rx = whole.track_match(match_id, "CA");
    let first = vec![event("CA", "x", "1", "a", 1), event("CA", "staked", "2", "b", 2)];
    let second = vec![event("CA", "staked", "3", "c", 3)];
    let all = vec![
        event("CA", "x", "1", "a", 1),
        event("CA", "staked", "2", "b", 2),
        event("CA", "staked", "3", "c", 3),
    ];
    assert!(split.process_events("CA", &first).is_some());
    assert!(split.process_events("CA", &second).is_none());
    assert!(whole.process_events("CA", &all).is_some());
    assert_eq!(split.cursor(), whole.cursor());
    assert_eq!(split_rx.try_recv().unwrap().transaction_hash, "b");
    assert_eq!(whole_rx.try_recv().unwrap().transaction_hash, "b");
    assert!(split_rx.try_recv().is_err());
    assert!(whole_rx.try_recv().is_err());
}

#[test]
fn empty_batch_changes_nothing() {
    let mut listener = SorobanEventListener::new("https://h");
    let _rx = listener.track_match(Uuid::new_v4(), "CA");
    assert!(listener.process_events("CA", &Vec::new()).is_none());
    assert_eq!(listener.cursor(), "now");
}

#[test]
fn events_of_another_contract_only_move_the_cursor() {
    let mut listener = SorobanEventListener::new("https://h");
    let mut rx = listener.track_match(Uuid::new_v4(), "CA");
    let events = vec![event("CB", "staked", "5-5", "tx", 5)];
    assert!(listener.process_events("CA", &events).is_none());
    assert!(rx.try_recv().is_err());
    assert_eq!(listener.cursor(), "5-5");
}

#[test]
fn topics_are_decoded_before_they_are_searched() {
    assert!(topic_is_stake("c3Rha2Vk"));
    assert!(!topic_is_stake("staked"));
    assert!(decoded_topic_is_stake(b"staked"));
    assert!(!decoded_topic_is_stake(b"c3Rha2Vk"));
    assert!(text_names_stake("stake_confirmed"));
    assert!(text_names_stake("mistaked"));
    assert!(!text_names_stake("stake"));
    assert!(!text_names_stake(""));
}

#[test]
fn text_is_searched_by_characters() {
    assert!(contains_text("\u{e9}t\u{e9}", "t\u{e9}"));
    assert!(!contains_text("\u{e9}t\u{e9}", "te"));
    assert!(contains_text("abc", ""));
    assert!(contains_text("", ""));
    assert!(!contains_text("", "a"));
    assert!(same_text("abc", "abc"));
    assert!(!same_text("abc", "abd"));
}

#[test]
fn numbers_are_written_in_decimal() {
    assert_eq!(decimal_text(0), "0");
    assert_eq!(decimal_text(7), "7");
    assert_eq!(decimal_text(10), "10");
    assert_eq!(decimal_text(200), "200");
    assert_eq!(decimal_text(u32::MAX), "4294967295");
}

#[test]
fn cursor_does_not_go_back_over_several_contracts() {
    let mut listener = SorobanEventListener::new("https://h");
    let _a = listener.track_match(Uuid::new_v4(), "CA");
    let _b = listener.track_match(Uuid::new_v4(), "CB");
    let mut cycle = listener.begin_poll().unwrap();
    let first = cycle.contract_id().unwrap().to_string();
    let late = vec![event(&first, "x", "100-1", "a", 100), event(&first, "x", "100-2", "b", 100)];
    listener.take_reply(&mut cycle, PollReply::Events(late));
    let second = cycle.contract_id().unwrap().to_string();
    let early = vec![event(&second, "staked", "99-7", "c", 99)];
    let step = listener.take_reply(&mut cycle, PollReply::Events(early));
    assert!(matches!(step, PollStep::Processed(Some(_))));
    assert_eq!(listener.cursor(), "100-2");
    let next = listener.begin_poll().unwrap();
    assert!(listener.next_request(&next).unwrap().contains("&cursor=100-2&"));
}

#[test]
fn positions_are_compared_as_numbers() {
    assert_eq!(read_position("12345-1"), Some(Position { operation: 12345, index: 1 }));
    assert_eq!(
        read_position("0164090849041387521-0000000003"),
        Some(Position { operation: 164090849041387521, index: 3 })
    );
    assert_eq!(read_position("77"), Some(Position { operation: 77, index: 0 }));
    assert_eq!(
        read_position("18446744073709551615-0"),
        Some(Position { operation: u64::MAX, index: 0 })
    );
    assert_eq!(read_position("18446744073709551616-0"), None);
    assert_eq!(read_position("now"), None);
    assert_eq!(read_position(""), None);
    assert_eq!(read_position("-1"), None);
    assert_eq!(read_position("1-"), None);
    assert_eq!(read_position("1-2-3"), None);
    assert!(cursor_stays("10-1", "9-9"));
    assert!(cursor_stays("10-2", "10-1"));
    assert!(!cursor_stays("9-9", "10-1"));
    assert!(!cursor_stays("10-1", "10-1"));
    assert!(!cursor_stays("now", "1-1"));
    assert!(!cursor_stays("10-1", "abc"));
    assert!(!cursor_stays("10-1", "11-1-0"));
    assert!(!cursor_stays("unreadable", "1-1"));
    assert!(Position { operation: 1, index: 5 }.is_before(&Position { operation: 2, index: 0 }));
}

#[test]
fn whole_cycle_sends_one_signal_for_each_match_that_starts() {
    let mut listener = SorobanEventListener::new("https://h");
    let ids = [Uuid::from_u128(1), Uuid::from_u128(2)];
    let mut ra = listener.track_match(ids[0], "C1");
    let mut rb = listener.track_match(ids[1], "C2");
    let mut cycle = listener.begin_poll().unwrap();
    while listener.next_request(&cycle).is_some() {
        let contract_id = cycle.contract_id().unwrap().to_string();
        let events = if contract_id == "C1" {
            vec![
                event("C1", "staked", "10-1", "ta", 7),
                event("C1", "game_started", "10-2", "tb", 8),
            ]
        } else {
            vec![]
        };
        listener.take_reply(&mut cycle, PollReply::Events(events));
    }
    let signal = ra.try_recv().unwrap();
    assert_eq!(signal.match_id, ids[0]);
    assert_eq!(signal.transaction_hash, "ta");
    assert_eq!(signal.ledger, 7);
    assert!(ra.try_recv().is_err());
    assert!(rb.try_recv().is_err());
    assert_eq!(listener.cursor(), "10-2");
    assert_eq!(listener.tracked_match("C1").unwrap().status(), StakeStatus::InProgress);
    assert_eq!(listener.tracked_match("C2").unwrap().status(), StakeStatus::AwaitingStake);
}

#[test]
fn stake_symbols_are_found_among_bytes_that_are_no_text() {
    assert!(decoded_topic_is_stake(&[0xe2, 0x82, b's', b't', b'a', b'k', b'e', b'd', 0x80]));
    assert!(!decoded_topic_is_stake(&[b's', b't', 0xe2, b'a', b'k', b'e', b'd']));
    assert!(decoded_topic_is_stake(b"\xf0\x90stake_confirmed"));
}

#[test]
fn token_of_another_form_is_followed() {
    let mut listener = SorobanEventListener::new("https://h");
    let _rx = listener.track_match(Uuid::new_v4(), "CA");
    listener.process_events("CA", &vec![event("CA", "x", "10-1", "a", 1)]);
    listener.process_events("CA", &vec![event("CA", "x", "abc", "b", 2)]);
    assert_eq!(listener.cursor(), "abc");
    listener.process_events("CA", &vec![event("CA", "x", "11-1-0", "c", 3)]);
    assert_eq!(listener.cursor(), "11-1-0");
    listener.process_events("CA", &vec![event("CA", "x", "12-1", "d", 4)]);
    assert_eq!(listener.cursor(), "12-1");
}
