use dlc_oracle::aggregate::{aggregate, median_price, rank, responses};
use dlc_oracle::api::{
    execute_announcement, execute_announcements, parse_database_entry, same_text, AssetPair,
    Oracle, QueryError,
};
use dlc_oracle::event::Event;
use dlc_oracle::query::{list, SortOrder, PAGE_WIDTH};
use dlc_oracle::schedule::{record_attestation, resolve_event, Resolution, Schedule};
use dlc_oracle::signer::{message_for, KeySigner};
use dlc_oracle::store::EventStore;

const DAY: i64 = 86400;
const NOW: i64 = 1_700_000_000;

fn signer() -> KeySigner {
    KeySigner::from_secret(vec![7u8; 32]).unwrap()
}

fn daily_oracle() -> Oracle {
    Oracle::new(AssetPair::BTCUSD, Schedule::new(DAY, 7 * DAY))
}

fn store_of_days(n: i64) -> EventStore {
    let mut s = EventStore::new();
    for i in 0..n {
        s.put(Event::announced(NOW + i * DAY, vec![i as u8], vec![1u8; 32]));
    }
    s
}

#[test]
fn scenario_btcusd_one_tick_then_attested() {
    let signer = signer();
    let mut oracle = daily_oracle();
    let m = oracle.announce_due(NOW, &signer);
    assert_eq!(m, Some(NOW + 7 * DAY));
    assert_eq!(oracle.event_database.len(), 1);
    let e = oracle.event_database.first().unwrap();
    assert_eq!(e.maturation, NOW + 7 * DAY);
    assert!(!e.is_attested());
    assert_eq!(e.announcement.len(), 96);
    assert!(e.nonce.is_some());
    // a second tick at the same time announces nothing new
    assert_eq!(oracle.announce_due(NOW, &signer), None);
    assert_eq!(oracle.event_database.len(), 1);

    let later = NOW + 7 * DAY + 60;
    let due = oracle.schedule.due_for_attestation(&oracle.event_database, later);
    assert_eq!(due, vec![NOW + 7 * DAY]);
    let quotes = vec![Some(30000u64), Some(30010), Some(29990)];
    let r = oracle.attest(NOW + 7 * DAY, &quotes, 2);
    assert!(matches!(r, Resolution::Attested(30000)));
    let e = oracle.event_database.get(NOW + 7 * DAY).unwrap();
    assert_eq!(e.outcome, Some(30000));
    assert_eq!(e.attestation.as_ref().unwrap().len(), 64);
    assert!(e.nonce.is_none());
    assert!(oracle.schedule.due_for_attestation(&oracle.event_database, later).is_empty());
}

#[test]
fn quorum_not_met_leaves_event_pending() {
    let signer = signer();
    let mut oracle = daily_oracle();
    let m = oracle.announce_due(NOW, &signer).unwrap();
    let quotes = vec![None, Some(30000u64), None];
    let r = oracle.attest(m, &quotes, 2);
    assert!(matches!(r, Resolution::QuorumNotMet));
    let e = oracle.event_database.get(m).unwrap();
    assert!(e.attestation.is_none());
    assert!(e.outcome.is_none());
}

#[test]
fn quorum_of_two_takes_median_of_two() {
    assert_eq!(aggregate(&vec![Some(100u64), None, Some(201)], 2), Some(150));
    assert_eq!(aggregate(&vec![None, Some(201u64), Some(100)], 2), Some(150));
    assert_eq!(aggregate(&vec![None, Some(201u64), None], 2), None);
}

#[test]
fn aggregate_edge_cases() {
    assert_eq!(aggregate(&vec![], 0), None);
    assert_eq!(aggregate(&vec![None, None, None], 0), None);
    assert_eq!(aggregate(&vec![Some(5u64)], 0), Some(5));
    assert_eq!(aggregate(&vec![Some(u64::MAX), Some(u64::MAX - 1)], 2), Some(u64::MAX - 1));
    assert_eq!(aggregate(&vec![Some(1u64), Some(9), Some(3), Some(7)], 3), Some(5));
    assert_eq!(responses(&vec![None, Some(4u64), None, Some(2)]), vec![4, 2]);
    assert_eq!(rank(&vec![5u64, 1, 4, 1, 3]), vec![1, 1, 3, 4, 5]);
    assert_eq!(median_price(&vec![30000u64, 30010, 29990]), 30000);
}

#[test]
fn attesting_twice_keeps_first_attestation() {
    let signer = signer();
    let mut oracle = daily_oracle();
    let m = oracle.announce_due(NOW, &signer).unwrap();
    let r = oracle.attest(m, &vec![Some(10u64), Some(20), Some(30)], 2);
    assert!(matches!(r, Resolution::Attested(20)));
    let first = oracle.event_database.get(m).unwrap().attestation.clone();
    let r = oracle.attest(m, &vec![Some(99u64), Some(99), Some(99)], 2);
    assert!(matches!(r, Resolution::AlreadyAttested));
    let e = oracle.event_database.get(m).unwrap();
    assert_eq!(e.outcome, Some(20));
    assert_eq!(e.attestation, first);
    let mut store = store_of_days(1);
    assert!(record_attestation(&mut store, NOW, 1, vec![1]));
    assert!(!record_attestation(&mut store, NOW, 2, vec![2]));
    assert_eq!(store.get(NOW).unwrap().outcome, Some(1));
    assert!(matches!(
        resolve_event(&mut store, NOW + 1, &vec![Some(1u64)], 1),
        Resolution::Unknown
    ));
}

#[test]
fn pages_cover_every_key_once() {
    let store = store_of_days(250);
    for order in [SortOrder::Insertion, SortOrder::ReverseInsertion] {
        let reverse = matches!(order, SortOrder::ReverseInsertion);
        let mut keys: Vec<i64> = Vec::new();
        for page in 0..5u32 {
            let o = if reverse { SortOrder::ReverseInsertion } else { SortOrder::Insertion };
            let events = list(&store, o, page, PAGE_WIDTH as u64);
            if page == 0 {
                assert_eq!(events.len(), 100);
            }
            keys.extend(events.iter().map(|e| e.maturation));
        }
        keys.sort();
        let all: Vec<i64> = (0..250).map(|i| NOW + i * DAY).collect();
        assert_eq!(keys, all);
    }
    let newest = list(&store, SortOrder::ReverseInsertion, 0, PAGE_WIDTH as u64);
    assert_eq!(newest.last().unwrap().maturation, NOW + 249 * DAY);
    let oldest = list(&store, SortOrder::Insertion, 0, PAGE_WIDTH as u64);
    assert_eq!(oldest[0].maturation, NOW);
    assert!(list(&EventStore::new(), SortOrder::Insertion, 0, PAGE_WIDTH as u64).is_empty());
}

#[test]
fn put_then_get_and_range_round_trip() {
    let mut store = EventStore::new();
    let e = Event {
        maturation: NOW,
        announcement: vec![1, 2, 3],
        nonce: None,
        attestation: Some(vec![9, 8]),
        outcome: Some(42),
    };
    store.put(e);
    store.put(Event::announced(NOW - DAY, vec![5], vec![2u8; 32]));
    let got = store.get(NOW).unwrap();
    assert_eq!(got.announcement, vec![1, 2, 3]);
    assert_eq!(got.attestation, Some(vec![9, 8]));
    assert_eq!(got.outcome, Some(42));
    let r = store.range(NOW as i128, NOW as i128 + 1);
    assert_eq!(r.len(), 1);
    assert_eq!(r[0].announcement, vec![1, 2, 3]);
    assert_eq!(r[0].attestation, Some(vec![9, 8]));
    assert_eq!(r[0].outcome, Some(42));
    assert_eq!(store.first().unwrap().maturation, NOW - DAY);
    assert_eq!(store.last().unwrap().maturation, NOW);
    assert!(store.get(NOW + 1).is_none());
    // replacing keeps one event per key
    store.put(Event::announced(NOW, vec![7], vec![2u8; 32]));
    assert_eq!(store.len(), 2);
    assert_eq!(store.get(NOW).unwrap().announcement, vec![7]);
    assert!(store.range(NOW as i128 + 1, NOW as i128 + 10).is_empty());
}

#[test]
fn keys_advance_by_cadence_and_events_stay_consistent() {
    let signer = signer();
    let mut oracle = daily_oracle();
    let mut now = NOW;
    for _ in 0..10 {
        oracle.announce_all_due(now, &signer);
        now += DAY;
    }
    let n = oracle.event_database.len();
    assert!(n >= 10);
    for i in 1..n {
        let a = oracle.event_database.at(i - 1).maturation;
        let b = oracle.event_database.at(i).maturation;
        assert_eq!(b, a + DAY);
    }
    let due = oracle.schedule.due_for_attestation(&oracle.event_database, now);
    for k in due {
        oracle.attest(k, &vec![Some(1u64), Some(2), Some(3)], 2);
    }
    for i in 0..n {
        let e = oracle.event_database.at(i);
        assert_eq!(e.attestation.is_some(), e.outcome.is_some());
    }
    assert!(oracle.event_database.at(0).is_attested());
    assert!(!oracle.event_database.at(n - 1).is_attested());
}

#[test]
fn api_event_shows_hex_and_rfc3339() {
    let e = Event {
        maturation: NOW,
        announcement: vec![0x0a, 0x1b, 0xff],
        nonce: None,
        attestation: Some(vec![0x00, 0x10]),
        outcome: Some(7),
    };
    let a = parse_database_entry(AssetPair::BTCUSD, &e).unwrap();
    assert_eq!(a.announcement, "0a1bff");
    assert_eq!(a.attestation.as_deref(), Some("0010"));
    assert_eq!(a.maturation, "2023-11-14T22:13:20Z");
    assert_eq!(a.outcome, Some(7));
    let far = Event::announced(253402300800, vec![], vec![]);
    assert!(parse_database_entry(AssetPair::BTCUSD, &far).is_none());
}

#[test]
fn point_lookup_errors_and_hits() {
    let signer = signer();
    let mut oracle = daily_oracle();
    oracle.announce_due(NOW, &signer);
    let oracles = vec![oracle];
    let key = "2023-11-21T22:13:20Z";
    let a = execute_announcement(&oracles, AssetPair::BTCUSD, key).unwrap();
    assert_eq!(a.maturation, key);
    assert_eq!(a.attestation, None);
    assert!(matches!(
        execute_announcement(&oracles, AssetPair::BTCUSD, "not a time"),
        Err(QueryError::MalformedTimestamp)
    ));
    assert!(matches!(
        execute_announcement(&oracles, AssetPair::BTCUSD, "2023-11-22T22:13:20Z"),
        Err(QueryError::NotFound)
    ));
    // the same instant written with an offset is not the stored key
    assert!(matches!(
        execute_announcement(&oracles, AssetPair::BTCUSD, "2023-11-21T23:13:20+01:00"),
        Err(QueryError::NotFound)
    ));
    let none: Vec<Oracle> = Vec::new();
    assert!(matches!(
        execute_announcement(&none, AssetPair::BTCUSD, key),
        Err(QueryError::UnknownAssetPair(AssetPair::BTCUSD))
    ));
}

#[test]
fn listing_through_the_registry() {
    let signer = signer();
    let mut oracle = daily_oracle();
    oracle.announce_due(NOW, &signer);
    oracle.announce_due(NOW + DAY, &signer);
    let oracles = vec![oracle];
    let page = execute_announcements(&oracles, AssetPair::BTCUSD, SortOrder::ReverseInsertion, 0)
        .unwrap();
    assert_eq!(page.len(), 2);
    assert_eq!(page[1].maturation, "2023-11-22T22:13:20Z");
    let empty = execute_announcements(&vec![daily_oracle()], AssetPair::BTCUSD, SortOrder::Insertion, 0)
        .unwrap();
    assert!(empty.is_empty());
    let none: Vec<Oracle> = Vec::new();
    assert!(matches!(
        execute_announcements(&none, AssetPair::BTCUSD, SortOrder::Insertion, 0),
        Err(QueryError::UnknownAssetPair(AssetPair::BTCUSD))
    ));
    let mut far = daily_oracle();
    far.event_database.put(Event::announced(253402300800, vec![], vec![]));
    assert!(matches!(
        execute_announcements(&vec![far], AssetPair::BTCUSD, SortOrder::Insertion, 0),
        Err(QueryError::KeyWithoutText(253402300800))
    ));
}

#[test]
fn signer_keys_messages_and_signatures() {
    assert!(KeySigner::from_secret(vec![0u8; 32]).is_none());
    assert!(KeySigner::from_secret(vec![1u8; 31]).is_none());
    let s = signer();
    assert_eq!(s.public_key().len(), 32);
    let a = s.attest(NOW, 30000);
    assert_eq!(a.len(), 64);
    assert_eq!(a, s.attest(NOW, 30000));
    assert_ne!(a, s.attest(NOW, 30001));
    let (n1, a1) = s.commit();
    let (n2, a2) = s.commit();
    assert_eq!(n1.len(), 32);
    assert_eq!(a1.len(), 96);
    assert_ne!(n1, n2);
    assert_ne!(a1, a2);
    let one_time = KeySigner::from_secret(n1).unwrap();
    assert_eq!(a1[..32].to_vec(), one_time.public_key());
    let g = KeySigner::generate();
    assert_eq!(g.public_key().len(), 32);
    let m = message_for(1, 258);
    let mut expected = vec![0u8; 32];
    expected[7] = 1;
    expected[14] = 1;
    expected[15] = 2;
    assert_eq!(m, expected);
}

#[test]
fn text_comparison() {
    assert!(same_text("abc", "abc"));
    assert!(!same_text("abc", "abd"));
    assert!(!same_text("abc", "ab"));
    assert!(same_text("", ""));
}

#[test]
fn default_filters_show_newest_page_of_btcusd() {
    let f = dlc_oracle::api::Filters::default();
    assert_eq!(f.sort_by, SortOrder::ReverseInsertion);
    assert_eq!(f.page, 0);
    assert_eq!(f.asset_pair, AssetPair::BTCUSD);
}

#[test]
fn catching_up_announces_each_missing_day() {
    let signer = signer();
    let mut oracle = daily_oracle();
    assert_eq!(oracle.announce_all_due(NOW, &signer), vec![NOW + 7 * DAY]);
    assert!(oracle.announce_all_due(NOW, &signer).is_empty());
    assert_eq!(
        oracle.announce_all_due(NOW + 3 * DAY, &signer),
        vec![NOW + 8 * DAY, NOW + 9 * DAY, NOW + 10 * DAY]
    );
    assert_eq!(oracle.event_database.len(), 4);
    assert_ne!(oracle.event_database.at(0).announcement, oracle.event_database.at(1).announcement);
}

#[test]
fn public_key_is_not_the_secret() {
    let s = signer();
    assert_ne!(s.public_key(), vec![7u8; 32]);
    assert_eq!(s.public_key(), s.public_key());
}

#[test]
fn pending_event_without_valid_key_stays_pending() {
    let mut store = EventStore::new();
    store.put(Event::announced(NOW, vec![1], vec![0u8; 32]));
    let r = resolve_event(&mut store, NOW, &vec![Some(5u64), Some(6)], 1);
    assert!(matches!(r, Resolution::MissingNonce));
    assert!(!store.get(NOW).unwrap().is_attested());
    let mut store = EventStore::new();
    store.put(Event::announced(NOW, vec![1], vec![3u8; 32]));
    let r = resolve_event(&mut store, NOW, &vec![Some(5u64), Some(6)], 1);
    assert!(matches!(r, Resolution::Attested(5)));
    let expected = KeySigner::from_secret(vec![3u8; 32]).unwrap().attest(NOW, 5);
    assert_eq!(store.get(NOW).unwrap().attestation, Some(expected));
}
