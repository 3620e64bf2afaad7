use caspie_bot::book_keeping::{BookKeeper, Message, Reply};
use caspie_bot::notice::{SubscribeOutcome, UnsubscribeOutcome};
use caspie_bot::status::{NodeStatus, NodeStatusDetails};
use std::collections::{BTreeMap, BTreeSet};

fn url(s: &str) -> String {
    String::from(s)
}

fn reachable(key: &str) -> NodeStatus {
    NodeStatus::Online(NodeStatusDetails {
        api_version: String::from("1.0.0"),
        chainspec_name: String::from("casper"),
        our_public_signing_key: String::from(key),
    })
}

fn update(keeper: &mut BookKeeper, status_url: &str, node_status: NodeStatus) -> Reply {
    keeper.handle(Message::NodeStatusUpdate { status_url: url(status_url), node_status })
}

fn subscribers(keeper: &BookKeeper, status_url: &str) -> Vec<i64> {
    match keeper.subscription(&url(status_url)) {
        Some(sub) => sub.subscribed_chatters().clone(),
        None => Vec::new(),
    }
}

#[test]
fn new_registry_lists_nothing() {
    let keeper = BookKeeper::new();
    assert!(keeper.list_endpoints().is_empty());
    assert!(keeper.subscription(&url("a")).is_none());
}

#[test]
fn subscribe_twice_then_unsubscribe_twice() {
    let mut keeper = BookKeeper::new();
    assert_eq!(keeper.subscribe(&url("a"), 1), SubscribeOutcome::Ack);
    assert_eq!(keeper.subscribe(&url("a"), 1), SubscribeOutcome::AlreadySubscribed);
    assert_eq!(keeper.list_endpoints(), vec![url("a")]);
    assert_eq!(subscribers(&keeper, "a"), vec![1]);
    assert_eq!(keeper.unsubscribe(&url("a"), 1), UnsubscribeOutcome::Ack);
    assert_eq!(keeper.unsubscribe(&url("a"), 1), UnsubscribeOutcome::NotSubscribed);
    assert!(!keeper.list_endpoints().contains(&url("a")));
    assert!(keeper.list_endpoints().is_empty());
}

#[test]
fn subscribe_twice_then_unsubscribe_twice_through_the_mailbox() {
    let mut keeper = BookKeeper::new();
    match keeper.handle(Message::Subscribe { status_url: url("a"), chat_id: 1 }) {
        Reply::Subscribed { outcome, notice } => {
            assert_eq!(outcome, SubscribeOutcome::Ack);
            assert_eq!(notice.chat_id, 1);
            assert_eq!(notice.text, "You are now subscribed to updates for a");
        }
        other => panic!("unexpected reply {:?}", other),
    }
    match keeper.handle(Message::Subscribe { status_url: url("a"), chat_id: 1 }) {
        Reply::Subscribed { outcome, notice } => {
            assert_eq!(outcome, SubscribeOutcome::AlreadySubscribed);
            assert_eq!(notice.chat_id, 1);
            assert_eq!(notice.text, "You are already subscribed to updates for a");
        }
        other => panic!("unexpected reply {:?}", other),
    }
    match keeper.handle(Message::Unsubscribe { status_url: url("a"), chat_id: 1 }) {
        Reply::Unsubscribed { outcome, notice } => {
            assert_eq!(outcome, UnsubscribeOutcome::Ack);
            assert_eq!(notice.chat_id, 1);
            assert_eq!(notice.text, "You will no longer receive updates for a");
        }
        other => panic!("unexpected reply {:?}", other),
    }
    match keeper.handle(Message::Unsubscribe { status_url: url("a"), chat_id: 1 }) {
        Reply::Unsubscribed { outcome, notice } => {
            assert_eq!(outcome, UnsubscribeOutcome::NotSubscribed);
            assert_eq!(notice.chat_id, 1);
            assert_eq!(notice.text, "You are not subscribed to updates for a");
        }
        other => panic!("unexpected reply {:?}", other),
    }
    match keeper.handle(Message::GetNodesList) {
        Reply::NodesList { urls } => assert!(!urls.contains(&url("a"))),
        other => panic!("unexpected reply {:?}", other),
    }
}

#[test]
fn endpoints_are_listed_in_the_order_of_their_first_subscription() {
    let mut keeper = BookKeeper::new();
    keeper.subscribe(&url("c"), 1);
    keeper.subscribe(&url("a"), 1);
    keeper.subscribe(&url("b"), 2);
    keeper.subscribe(&url("a"), 3);
    assert_eq!(keeper.list_endpoints(), vec![url("c"), url("a"), url("b")]);
    keeper.unsubscribe(&url("a"), 1);
    assert_eq!(keeper.list_endpoints(), vec![url("c"), url("a"), url("b")]);
    keeper.unsubscribe(&url("a"), 3);
    assert_eq!(keeper.list_endpoints(), vec![url("c"), url("b")]);
    keeper.subscribe(&url("a"), 3);
    assert_eq!(keeper.list_endpoints(), vec![url("c"), url("b"), url("a")]);
}

#[test]
fn endpoint_urls_are_not_normalized() {
    let mut keeper = BookKeeper::new();
    assert_eq!(keeper.subscribe(&url("http://node/status"), 1), SubscribeOutcome::Ack);
    assert_eq!(keeper.subscribe(&url("http://node/status/"), 1), SubscribeOutcome::Ack);
    assert_eq!(keeper.subscribe(&url("HTTP://node/status"), 1), SubscribeOutcome::Ack);
    assert_eq!(keeper.list_endpoints().len(), 3);
}

#[test]
fn subscribers_are_those_left_by_the_last_request_of_each() {
    let mut keeper = BookKeeper::new();
    keeper.subscribe(&url("a"), 1);
    keeper.subscribe(&url("a"), 2);
    keeper.subscribe(&url("a"), 2);
    keeper.subscribe(&url("b"), 1);
    keeper.unsubscribe(&url("a"), 1);
    keeper.unsubscribe(&url("a"), 3);
    keeper.subscribe(&url("a"), 3);
    keeper.subscribe(&url("a"), 1);
    keeper.unsubscribe(&url("a"), 3);
    keeper.unsubscribe(&url("b"), 2);
    assert_eq!(subscribers(&keeper, "a"), vec![2, 1]);
    assert_eq!(subscribers(&keeper, "b"), vec![1]);
    assert_eq!(keeper.list_endpoints(), vec![url("a"), url("b")]);
}

#[test]
fn two_subscribes_and_one_unsubscribe_leave_nobody() {
    let mut keeper = BookKeeper::new();
    keeper.subscribe(&url("a"), 1);
    keeper.subscribe(&url("a"), 1);
    keeper.unsubscribe(&url("a"), 1);
    assert!(subscribers(&keeper, "a").is_empty());
    assert!(keeper.list_endpoints().is_empty());
}

#[test]
fn unsubscribing_the_last_subscriber_drops_the_endpoint() {
    let mut keeper = BookKeeper::new();
    keeper.subscribe(&url("a"), 1);
    keeper.subscribe(&url("a"), 2);
    keeper.subscribe(&url("b"), 1);
    assert_eq!(keeper.unsubscribe(&url("a"), 1), UnsubscribeOutcome::Ack);
    assert!(keeper.list_endpoints().contains(&url("a")));
    assert_eq!(keeper.unsubscribe(&url("a"), 2), UnsubscribeOutcome::Ack);
    assert!(!keeper.list_endpoints().contains(&url("a")));
    assert!(keeper.subscription(&url("a")).is_none());
    assert_eq!(keeper.list_endpoints(), vec![url("b")]);
}

#[test]
fn unsubscribing_from_an_unknown_endpoint_changes_nothing() {
    let mut keeper = BookKeeper::new();
    keeper.subscribe(&url("a"), 1);
    assert_eq!(keeper.unsubscribe(&url("b"), 1), UnsubscribeOutcome::NotSubscribed);
    assert_eq!(keeper.unsubscribe(&url("a"), 2), UnsubscribeOutcome::NotSubscribed);
    assert_eq!(keeper.list_endpoints(), vec![url("a")]);
    assert_eq!(subscribers(&keeper, "a"), vec![1]);
}

#[test]
fn a_new_endpoint_starts_offline_with_an_empty_history() {
    let mut keeper = BookKeeper::new();
    keeper.subscribe(&url("a"), 1);
    let sub = keeper.subscription(&url("a")).unwrap();
    assert_eq!(sub.current_status(), &NodeStatus::Offline);
    assert_eq!(sub.previous_status(), &NodeStatus::Offline);
    assert!(sub.status_history().is_empty());
    assert_eq!(sub.window(), 5);
}

#[test]
fn status_update_for_an_unknown_endpoint_is_dropped() {
    let mut keeper = BookKeeper::new();
    keeper.subscribe(&url("a"), 1);
    for _ in 0..6 {
        match update(&mut keeper, "b", reachable("01ab")) {
            Reply::StatusRecorded { changed, notices } => {
                assert!(!changed);
                assert!(notices.is_empty());
            }
            other => panic!("unexpected reply {:?}", other),
        }
    }
    assert!(!keeper.record_status(&url("b"), reachable("01ab")));
    assert_eq!(keeper.list_endpoints(), vec![url("a")]);
    assert!(keeper.subscription(&url("b")).is_none());
    assert!(keeper.subscription(&url("a")).unwrap().status_history().is_empty());
}

#[test]
fn a_confirmed_change_is_announced_once_to_every_subscriber() {
    let mut keeper = BookKeeper::new();
    keeper.subscribe(&url("http://node/status"), 7);
    keeper.subscribe(&url("http://node/status"), 3);
    keeper.subscribe(&url("http://other/status"), 9);
    for _ in 0..4 {
        match update(&mut keeper, "http://node/status", reachable("01ab")) {
            Reply::StatusRecorded { changed, notices } => {
                assert!(!changed);
                assert!(notices.is_empty());
            }
            other => panic!("unexpected reply {:?}", other),
        }
    }
    match update(&mut keeper, "http://node/status", reachable("01ab")) {
        Reply::StatusRecorded { changed, notices } => {
            assert!(changed);
            assert_eq!(notices.len(), 2);
            assert_eq!(notices[0].chat_id, 7);
            assert_eq!(notices[1].chat_id, 3);
            assert_eq!(notices[0].text, "The node at http://node/status is now online");
            assert_eq!(notices[1].text, "The node at http://node/status is now online");
        }
        other => panic!("unexpected reply {:?}", other),
    }
    match update(&mut keeper, "http://node/status", reachable("01ab")) {
        Reply::StatusRecorded { changed, notices } => {
            assert!(!changed);
            assert!(notices.is_empty());
        }
        other => panic!("unexpected reply {:?}", other),
    }
    let other = keeper.subscription(&url("http://other/status")).unwrap();
    assert!(other.status_history().is_empty());
    assert_eq!(other.current_status(), &NodeStatus::Offline);
    for _ in 0..4 {
        assert!(!keeper.record_status(&url("http://node/status"), NodeStatus::Offline));
    }
    match update(&mut keeper, "http://node/status", NodeStatus::Offline) {
        Reply::StatusRecorded { changed, notices } => {
            assert!(changed);
            assert_eq!(notices.len(), 2);
            assert_eq!(notices[0].chat_id, 7);
            assert_eq!(notices[0].text, "The node at http://node/status is now offline");
            assert_eq!(notices[1].chat_id, 3);
            assert_eq!(notices[1].text, "The node at http://node/status is now offline");
        }
        other => panic!("unexpected reply {:?}", other),
    }
}

#[test]
fn announce_tells_the_confirmed_state_to_each_subscriber() {
    let mut keeper = BookKeeper::new();
    keeper.subscribe(&url("a"), 5);
    keeper.subscribe(&url("a"), 6);
    let notices = keeper.announce(&url("a"));
    assert_eq!(notices.len(), 2);
    assert_eq!(notices[0].chat_id, 5);
    assert_eq!(notices[1].chat_id, 6);
    assert_eq!(notices[0].text, "The node at a is now offline");
    assert!(keeper.announce(&url("b")).is_empty());
}

#[test]
fn record_status_reports_the_fifth_agreeing_outcome() {
    let mut keeper = BookKeeper::new();
    keeper.subscribe(&url("a"), 1);
    for _ in 0..4 {
        assert!(!keeper.record_status(&url("a"), reachable("01ab")));
    }
    assert!(keeper.record_status(&url("a"), reachable("02cd")));
    let sub = keeper.subscription(&url("a")).unwrap();
    assert_eq!(sub.current_status(), &reachable("02cd"));
    assert_eq!(sub.previous_status(), &NodeStatus::Offline);
    assert_eq!(sub.status_history().len(), 5);
}

#[test]
fn resubscribing_after_the_endpoint_was_dropped_starts_afresh() {
    let mut keeper = BookKeeper::new();
    keeper.subscribe(&url("a"), 1);
    for _ in 0..5 {
        keeper.record_status(&url("a"), reachable("01ab"));
    }
    assert_eq!(keeper.subscription(&url("a")).unwrap().current_status(), &reachable("01ab"));
    keeper.unsubscribe(&url("a"), 1);
    keeper.subscribe(&url("a"), 2);
    let sub = keeper.subscription(&url("a")).unwrap();
    assert_eq!(sub.current_status(), &NodeStatus::Offline);
    assert!(sub.status_history().is_empty());
    assert_eq!(sub.subscribed_chatters(), &vec![2]);
}

#[test]
fn history_survives_a_change_of_subscribers() {
    let mut keeper = BookKeeper::new();
    keeper.subscribe(&url("a"), 1);
    for _ in 0..3 {
        keeper.record_status(&url("a"), reachable("01ab"));
    }
    keeper.subscribe(&url("a"), 2);
    keeper.unsubscribe(&url("a"), 1);
    assert_eq!(keeper.subscription(&url("a")).unwrap().status_history().len(), 3);
    assert!(!keeper.record_status(&url("a"), reachable("01ab")));
    assert!(keeper.record_status(&url("a"), reachable("01ab")));
}

#[test]
fn a_registry_hands_its_window_to_its_subscriptions() {
    assert!(BookKeeper::with_window(0).is_none());
    let mut keeper = BookKeeper::with_window(2).unwrap();
    keeper.subscribe(&url("a"), 1);
    assert_eq!(keeper.subscription(&url("a")).unwrap().window(), 2);
    assert!(!keeper.record_status(&url("a"), reachable("01ab")));
    assert!(keeper.record_status(&url("a"), reachable("01ab")));
    assert!(!keeper.record_status(&url("a"), reachable("01ab")));
    assert_eq!(keeper.subscription(&url("a")).unwrap().status_history().len(), 2);
}

#[test]
fn listing_changes_nothing() {
    let mut keeper = BookKeeper::new();
    keeper.subscribe(&url("a"), 1);
    keeper.subscribe(&url("b"), 2);
    for _ in 0..3 {
        match keeper.handle(Message::GetNodesList) {
            Reply::NodesList { urls } => assert_eq!(urls, vec![url("a"), url("b")]),
            other => panic!("unexpected reply {:?}", other),
        }
    }
    assert_eq!(subscribers(&keeper, "a"), vec![1]);
    assert_eq!(subscribers(&keeper, "b"), vec![2]);
}

#[test]
fn a_long_run_of_requests_agrees_with_a_set_per_endpoint() {
    let mut keeper = BookKeeper::new();
    let mut model: BTreeMap<String, BTreeSet<i64>> = BTreeMap::new();
    let mut seed: u64 = 0x2545_f491_4f6c_dd1d;
    for _ in 0..2000 {
        seed = seed.wrapping_mul(6364136223846793005).wrapping_add(1442695040888963407);
        let endpoint = url(["a", "b", "c", "d"][((seed >> 33) % 4) as usize]);
        let chat = ((seed >> 40) % 5) as i64;
        if (seed >> 50) % 2 == 0 {
            let fresh = model.entry(endpoint.clone()).or_default().insert(chat);
            let expected =
                if fresh { SubscribeOutcome::Ack } else { SubscribeOutcome::AlreadySubscribed };
            assert_eq!(keeper.subscribe(&endpoint, chat), expected);
        } else {
            let was_there = model.get_mut(&endpoint).map_or(false, |chats| chats.remove(&chat));
            if model.get(&endpoint).map_or(false, |chats| chats.is_empty()) {
                model.remove(&endpoint);
            }
            let expected =
                if was_there { UnsubscribeOutcome::Ack } else { UnsubscribeOutcome::NotSubscribed };
            assert_eq!(keeper.unsubscribe(&endpoint, chat), expected);
        }
        let mut listed = keeper.list_endpoints();
        listed.sort();
        let expected: Vec<String> = model.keys().cloned().collect();
        assert_eq!(listed, expected);
        for (endpoint, chats) in &model {
            let held = subscribers(&keeper, endpoint);
            let as_set: BTreeSet<i64> = held.iter().copied().collect();
            assert_eq!(held.len(), as_set.len());
            assert_eq!(&as_set, chats);
        }
    }
}

#[test]
fn acknowledged_requests_balance_to_the_membership() {
    let mut keeper = BookKeeper::new();
    let requests = [true, true, false, true, false, false, false, true, true];
    let mut balance = 0;
    for subscribe in requests {
        if subscribe {
            if keeper.subscribe(&url("a"), 1) == SubscribeOutcome::Ack {
                balance += 1;
            }
        } else if keeper.unsubscribe(&url("a"), 1) == UnsubscribeOutcome::Ack {
            balance -= 1;
        }
        assert!(balance == 0 || balance == 1);
        assert_eq!(subscribers(&keeper, "a").contains(&1), balance == 1);
    }
    assert_eq!(balance, 1);
}
