use blockkey::contracts::PrivateKey;
use blockkey::hash::Hashable;
use blockkey::log::{MessageLog, LIMIT};
use blockkey::quorum::{tally, Ballot, IdFilter, ValidatorSet};
use blockkey::timeout::TimeoutManager;
use blockkey::types::{Broadcast, Prevote};

#[test]
fn earlier_deadline_fires_first() {
    let mut timers = TimeoutManager::new();
    timers.add("t1", 0, 500);
    timers.add("t2", 0, 100);
    assert_eq!(timers.next_deadline(), Some(100));
    assert_eq!(timers.get_next(), Some("t2"));
    assert_eq!(timers.get_next(), Some("t1"));
    assert_eq!(timers.get_next(), None);
}

#[test]
fn equal_deadlines_fire_in_insertion_order() {
    let mut timers = TimeoutManager::new();
    timers.add(1u8, 10, 5);
    timers.add(2u8, 0, 15);
    assert_eq!(timers.pop_due(14), None);
    assert_eq!(timers.pop_due(15), Some(1));
    assert_eq!(timers.pop_due(15), Some(2));
}

fn prevote_at(height: u64) -> Broadcast<u64> {
    Broadcast::Prevote(PrivateKey::from_bytes([3; 32]).sign(Prevote::new(height, 0, None)))
}

#[test]
fn log_keeps_only_its_window() {
    let mut log: MessageLog<u64> = MessageLog::new();
    for h in 0..(LIMIT + 2) {
        log.add(prevote_at(h));
    }
    for h in 0..LIMIT {
        assert_eq!(log.get(h).map(|m| m.prevotes.len()), Some(1));
    }
    assert!(log.get(LIMIT).is_none());
    assert_eq!(log.get_current().prevotes.len(), 1);
    for _ in 0..3 {
        log.increment_height();
    }
    assert_eq!(log.height(), 3);
    assert!(log.get(2).is_none());
    assert_eq!(log.get(4).map(|m| m.prevotes.len()), Some(1));
    assert_eq!(log.get(3 + LIMIT - 1).map(|m| m.prevotes.len()), Some(0));
    log.add(prevote_at(2));
    log.add(prevote_at(3 + LIMIT));
    log.add(prevote_at(3 + LIMIT - 1));
    assert_eq!(log.get(3 + LIMIT - 1).map(|m| m.prevotes.len()), Some(1));
}

fn member(i: u8) -> blockkey::contracts::UserId {
    PrivateKey::from_bytes([i; 32]).get_public().hash()
}

#[test]
fn quorum_counts_each_signer_once() {
    let mut validators = ValidatorSet::new();
    for i in 1..=3 {
        validators.insert(member(i), 1);
    }
    assert_eq!(validators.total_votes(), 3);
    let x: blockkey::hash::Hash = 9u64.hash().cast();
    let ballots: Vec<Ballot> = (0..3).map(|_| Ballot { signer: member(1), height: 4, round: 2, id: Some(x) }).collect();
    assert_eq!(tally(&ballots, 4, 2, &IdFilter::Value(x), &validators), 1);
    assert_eq!(tally(&ballots, 4, 2, &IdFilter::Any, &validators), 1);
    assert_eq!(tally(&ballots, 4, 2, &IdFilter::Nil, &validators), 0);
    assert_eq!(tally(&ballots, 4, 3, &IdFilter::Any, &validators), 0);
}

#[test]
fn quorum_weights_and_unknown_signers() {
    let mut validators = ValidatorSet::new();
    validators.insert(member(1), 5);
    validators.insert(member(2), 7);
    validators.insert(member(1), 2);
    assert_eq!(validators.weight(&member(1)), 2);
    assert_eq!(validators.weight(&member(9)), 0);
    assert_eq!(validators.total_votes(), 9);
    let ballots = vec![
        Ballot { signer: member(9), height: 0, round: 0, id: None },
        Ballot { signer: member(2), height: 0, round: 0, id: None },
        Ballot { signer: member(1), height: 0, round: 0, id: None },
    ];
    assert_eq!(tally(&ballots, 0, 0, &IdFilter::Nil, &validators), 9);
}
