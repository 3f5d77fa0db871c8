use base64::engine::general_purpose::STANDARD;
use base64::Engine;
use uuid::Uuid;
use xlmate::event_listener::{HorizonEvent, SorobanEventListener, POLL_INTERVAL_SECS};
use xlmate::signal::StakeStatus;

const CONTRACT: &str = "CAAAAAAAAAAAAAAAAAAAAAAAAAAAAAAAAAAAAAAAAAAAAAAAAAAABSC4";

fn make_listener() -> SorobanEventListener {
    SorobanEventListener::new("https://horizon-testnet.stellar.org")
}

fn make_event(contract_id: &str, topic_b64: &str, tx_hash: &str) -> HorizonEvent {
    HorizonEvent {
        event_type: "contract".to_string(),
        contract_id: Some(contract_id.to_string()),
        paging_token: "12345-1".to_string(),
        topic: vec![topic_b64.to_string()],
        ledger: 100,
        transaction_hash: tx_hash.to_string(),
    }
}

fn encode_topic(symbol: &str) -> String {
    STANDARD.encode(symbol.as_bytes())
}

#[test]
fn test_stake_event_recognised_by_topic() {
    let listener = make_listener();
    let event = make_event(CONTRACT, &encode_topic("staked"), "txabc");

    assert!(listener.is_stake_event(&event, CONTRACT));
}

#[test]
fn test_stake_confirmed_topic_recognised() {
    let listener = make_listener();
    let event = make_event(CONTRACT, &encode_topic("stake_confirmed"), "txabc");

    assert!(listener.is_stake_event(&event, CONTRACT));
}

#[test]
fn test_non_stake_topic_ignored() {
    let listener = make_listener();
    let event = make_event(CONTRACT, &encode_topic("game_started"), "txabc");

    assert!(!listener.is_stake_event(&event, CONTRACT));
}

#[test]
fn test_wrong_contract_id_ignored() {
    let listener = make_listener();
    let different = "CBBBBBBBBBBBBBBBBBBBBBBBBBBBBBBBBBBBBBBBBBBBBBBBBBBBBBBB";
    let event = make_event(different, &encode_topic("staked"), "txabc");

    assert!(!listener.is_stake_event(&event, CONTRACT));
}

#[test]
fn test_non_contract_event_type_ignored() {
    let listener = make_listener();
    let mut event = make_event(CONTRACT, &encode_topic("staked"), "txabc");
    event.event_type = "diagnostic".to_string();

    assert!(!listener.is_stake_event(&event, CONTRACT));
}

#[test]
fn test_invalid_base64_topic_ignored() {
    let listener = make_listener();
    let event = make_event(CONTRACT, "!!!not-valid-base64!!!", "txabc");

    assert!(!listener.is_stake_event(&event, CONTRACT));
}

#[test]
fn test_track_match_registers_awaiting_stake_status() {
    let mut listener = make_listener();
    let match_id = Uuid::new_v4();

    listener.track_match(match_id, CONTRACT);

    let entry = listener.tracked_match(CONTRACT).unwrap();
    assert_eq!(entry.match_id(), match_id);
    assert_eq!(entry.status(), StakeStatus::AwaitingStake);
}

#[test]
fn test_stake_event_broadcasts_start_signal() {
    let mut listener = make_listener();
    let match_id = Uuid::new_v4();

    let mut rx = listener.track_match(match_id, CONTRACT);

    let event = make_event(CONTRACT, &encode_topic("staked"), "tx_stake_hash");
    listener.handle_stake_event(CONTRACT, &event);

    let signal = rx.try_recv().expect("MatchStartSignal should be available");
    assert_eq!(signal.match_id, match_id);
    assert_eq!(signal.status, "IN_PROGRESS");
    assert_eq!(signal.event_type, "STAKE_CONFIRMED");
    assert_eq!(signal.transaction_hash, "tx_stake_hash");
    assert_eq!(signal.ledger, 100);
}

#[test]
fn test_stake_event_transitions_status_to_in_progress() {
    let mut listener = make_listener();
    let match_id = Uuid::new_v4();

    listener.track_match(match_id, CONTRACT);

    let event = make_event(CONTRACT, &encode_topic("staked"), "tx_hash");
    listener.handle_stake_event(CONTRACT, &event);

    assert_eq!(
        listener.tracked_match(CONTRACT).unwrap().status(),
        StakeStatus::InProgress
    );
}

#[test]
fn test_duplicate_stake_event_ignored() {
    let mut listener = make_listener();
    let match_id = Uuid::new_v4();

    let mut rx = listener.track_match(match_id, CONTRACT);

    let event = make_event(CONTRACT, &encode_topic("staked"), "tx_hash");

    listener.handle_stake_event(CONTRACT, &event);
    assert!(rx.try_recv().is_ok());

    listener.handle_stake_event(CONTRACT, &event);
    assert!(rx.try_recv().is_err());
}

#[test]
fn test_untrack_removes_match() {
    let mut listener = make_listener();
    let match_id = Uuid::new_v4();

    listener.track_match(match_id, CONTRACT);
    assert!(listener.untrack_match(CONTRACT));

    assert!(listener.tracked_match(CONTRACT).is_none());
    assert!(!listener.untrack_match(CONTRACT));
}

#[test]
fn test_poll_interval_constant() {
    assert_eq!(POLL_INTERVAL_SECS, 5);
}

#[test]
fn event_without_topic_is_no_stake_event() {
    let listener = make_listener();
    let mut event = make_event(CONTRACT, &encode_topic("staked"), "txabc");
    event.topic.clear();
    assert!(!listener.is_stake_event(&event, CONTRACT));
}

#[test]
fn only_the_first_topic_counts() {
    let listener = make_listener();
    let mut event = make_event(CONTRACT, &encode_topic("game_started"), "txabc");
    event.topic.push(encode_topic("staked"));
    assert!(!listener.is_stake_event(&event, CONTRACT));
}

#[test]
fn event_without_contract_is_no_stake_event() {
    let listener = make_listener();
    let mut event = make_event(CONTRACT, &encode_topic("staked"), "txabc");
    event.contract_id = None;
    assert!(!event.is_from_contract(CONTRACT));
    assert!(!listener.is_stake_event(&event, CONTRACT));
}

#[test]
fn symbol_inside_a_longer_topic_is_recognised() {
    let listener = make_listener();
    let topic = STANDARD.encode([0u8, 0, 0, 15, 0, 0, 0, 6, b's', b't', b'a', b'k', b'e', b'd', 0, 0]);
    let event = make_event(CONTRACT, &topic, "txabc");
    assert!(listener.is_stake_event(&event, CONTRACT));
}

#[test]
fn symbol_beside_invalid_utf8_is_recognised() {
    let listener = make_listener();
    let topic = STANDARD.encode([0xff, b's', b't', b'a', b'k', b'e', b'd', 0xc3]);
    let event = make_event(CONTRACT, &topic, "txabc");
    assert!(listener.is_stake_event(&event, CONTRACT));
    let broken = STANDARD.encode([b's', b't', b'a', 0xff, b'k', b'e', b'd']);
    let event = make_event(CONTRACT, &broken, "txabc");
    assert!(!listener.is_stake_event(&event, CONTRACT));
}

#[test]
fn unpadded_topic_is_ignored() {
    let listener = make_listener();
    let event = make_event(CONTRACT, "c3Rha2VkIQ", "txabc");
    assert!(!listener.is_stake_event(&event, CONTRACT));
    let event = make_event(CONTRACT, "c3Rha2VkIQ==", "txabc");
    assert!(listener.is_stake_event(&event, CONTRACT));
}

#[test]
fn stake_event_reports_the_started_match() {
    let mut listener = make_listener();
    let match_id = Uuid::new_v4();
    let _rx = listener.track_match(match_id, CONTRACT);
    let event = make_event(CONTRACT, &encode_topic("staked"), "tx_hash");
    let report = listener.handle_stake_event(CONTRACT, &event).unwrap();
    assert_eq!(report.match_id, match_id);
    assert_eq!(report.transaction_hash, "tx_hash");
    assert_eq!(report.subscribers, 1);
    assert!(listener.handle_stake_event(CONTRACT, &event).is_none());
}

#[test]
fn stake_event_without_subscribers_still_starts_the_match() {
    let mut listener = make_listener();
    drop(listener.track_match(Uuid::new_v4(), CONTRACT));
    let event = make_event(CONTRACT, &encode_topic("staked"), "tx_hash");
    let report = listener.handle_stake_event(CONTRACT, &event).unwrap();
    assert_eq!(report.subscribers, 0);
    assert_eq!(
        listener.tracked_match(CONTRACT).unwrap().status(),
        StakeStatus::InProgress
    );
}

#[test]
fn stake_event_of_an_untracked_contract_is_ignored() {
    let mut listener = make_listener();
    let mut rx = listener.track_match(Uuid::new_v4(), CONTRACT);
    listener.untrack_match(CONTRACT);
    let event = make_event(CONTRACT, &encode_topic("staked"), "tx_hash");
    assert!(listener.handle_stake_event(CONTRACT, &event).is_none());
    assert!(rx.try_recv().is_err());
}

#[test]
fn tracking_again_awaits_the_stake_again() {
    let mut listener = make_listener();
    let first = Uuid::new_v4();
    let second = Uuid::new_v4();
    let _old = listener.track_match(first, CONTRACT);
    let event = make_event(CONTRACT, &encode_topic("staked"), "tx_hash");
    listener.handle_stake_event(CONTRACT, &event);
    let mut rx = listener.track_match(second, CONTRACT);
    assert_eq!(listener.tracked_contracts().len(), 1);
    let entry = listener.tracked_match(CONTRACT).unwrap();
    assert_eq!(entry.match_id(), second);
    assert_eq!(entry.status(), StakeStatus::AwaitingStake);
    assert!(rx.try_recv().is_err());
}

#[test]
fn signal_copies_equal_the_original() {
    let mut listener = make_listener();
    let mut rx = listener.track_match(Uuid::new_v4(), CONTRACT);
    let event = make_event(CONTRACT, &encode_topic("staked"), "tx_hash");
    listener.handle_stake_event(CONTRACT, &event);
    let signal = rx.try_recv().unwrap();
    let copy = signal.clone();
    assert_eq!(copy.match_id, signal.match_id);
    assert_eq!(copy.status, signal.status);
    assert_eq!(copy.event_type, signal.event_type);
    assert_eq!(copy.transaction_hash, signal.transaction_hash);
    assert_eq!(copy.ledger, signal.ledger);
}
