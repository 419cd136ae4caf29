use blockkey::contracts::{PrivateKey, UserId};
use blockkey::fixed_app::FixedApp;
use blockkey::hash;
use blockkey::hash::Hashable;
use blockkey::quorum::ValidatorSet;
use blockkey::tendermint::Tendermint;
use blockkey::timeout::Timeouts;
use blockkey::types::{Broadcast, Message, Precommit, Prevote, Proposal, Step};

const BLOCK: u64 = 42;

fn key(i: u8) -> PrivateKey {
    PrivateKey::from_bytes([i + 1; 32])
}

fn ids() -> Vec<UserId> {
    (0..4).map(|i| key(i).get_public().hash()).collect()
}

fn replica(i: u8) -> Tendermint<FixedApp, u64> {
    let mut validators = ValidatorSet::new();
    for id in ids() {
        validators.insert(id, 1);
    }
    Tendermint::new(FixedApp::new(key(i), validators, ids(), BLOCK, 1))
}

fn block_id() -> Option<hash::Hash<u64>> {
    Some(BLOCK.hash())
}

/// Collects what the replicas in `from` emit and delivers it to every replica in `to`.
fn wave(nodes: &mut [Tendermint<FixedApp, u64>], from: &[usize], to: &[usize], now: u64) -> usize {
    let mut sent = Vec::new();
    for &i in from {
        sent.extend(nodes[i].take_outgoing());
    }
    for msg in &sent {
        for &j in to {
            assert!(nodes[j].on_broadcast(msg.clone(), now));
        }
    }
    sent.len()
}

fn fire_timers(node: &mut Tendermint<FixedApp, u64>, now: u64) {
    while node.on_timer(now) {}
}

fn has_prevote(node: &Tendermint<FixedApp, u64>, height: u64) -> bool {
    node.outgoing.iter().any(|m| matches!(m, Message::Prevote(p) if p.height == height))
}

#[test]
fn single_proposer_commit() {
    let mut nodes: Vec<_> = (0..4).map(replica).collect();
    let all = [0, 1, 2, 3];
    for n in nodes.iter_mut() {
        n.start(0);
    }
    assert_eq!(wave(&mut nodes, &all, &all, 10), 1);
    for n in &nodes {
        assert_eq!(n.current.step, Step::Prevote);
    }
    assert_eq!(wave(&mut nodes, &all, &all, 20), 4);
    for n in &nodes {
        assert_eq!(n.current.step, Step::Precommit);
        assert!(n.locked.as_ref().map(|r| r.value == BLOCK && r.round == 0).unwrap_or(false));
        assert!(n.valid.as_ref().map(|r| r.value == BLOCK && r.round == 0).unwrap_or(false));
    }
    assert_eq!(wave(&mut nodes, &all, &all, 30), 4);
    for n in &nodes {
        assert_eq!(n.app.decided().clone(), vec![BLOCK]);
        assert_eq!(n.height, 1);
        assert_eq!(n.current.round, 0);
        assert!(n.locked.is_none() && n.valid.is_none());
        assert_eq!(n.log.height(), 1);
    }
}

#[test]
fn nil_round_advances() {
    let mut nodes: Vec<_> = (0..4).map(replica).collect();
    let live = [1, 2, 3];
    for &i in &live {
        nodes[i].start(0);
        assert_eq!(nodes[i].outgoing.len(), 0);
        fire_timers(&mut nodes[i], 1000);
        assert_eq!(nodes[i].current.step, Step::Prevote);
    }
    assert_eq!(wave(&mut nodes, &live, &live, 1000), 3);
    for &i in &live {
        assert_eq!(nodes[i].current.step, Step::Precommit);
        assert!(nodes[i].current.prevote_timeout_scheduled);
    }
    assert_eq!(wave(&mut nodes, &live, &live, 1000), 3);
    for &i in &live {
        assert!(nodes[i].current.precommit_timeout_scheduled);
        fire_timers(&mut nodes[i], 2000);
        assert_eq!(nodes[i].current.round, 1);
        assert_eq!(nodes[i].current.step, Step::Propose);
        assert!(nodes[i].app.decided().is_empty());
        assert_eq!(nodes[i].height, 0);
    }
    // The proposer of round 1 is replica 1: it proposes at once.
    assert_eq!(nodes[1].outgoing.len(), 1);
}

#[test]
fn stale_timer_is_inert() {
    let mut node = replica(1);
    node.start(0);
    let proposal = Proposal { height: 0, round: 0, proposal: BLOCK, valid_round: None };
    assert!(node.on_broadcast(Broadcast::Proposal(key(0).sign(proposal)), 1));
    for i in [0u8, 2, 3] {
        let vote = Precommit::new(0, 0, block_id());
        assert!(node.on_broadcast(Broadcast::Precommit(key(i).sign(vote)), 2));
    }
    assert_eq!(node.height, 1);
    assert_eq!(node.app.decided().clone(), vec![BLOCK]);
    node.take_outgoing();
    let queued = node.outgoing.len();
    assert!(node.on_timer(1000));
    assert!(!has_prevote(&node, 0));
    assert_eq!(node.outgoing.len(), queued);
}

#[test]
fn zero_weight_signers_are_ignored() {
    let mut node = replica(1);
    node.start(0);
    fire_timers(&mut node, 1000);
    assert_eq!(node.current.step, Step::Prevote);
    for i in 10u8..14 {
        let vote = Prevote::new(0, 0, None);
        assert!(node.on_broadcast(Broadcast::Prevote(key(i).sign(vote)), 1001));
    }
    assert_eq!(node.current.step, Step::Prevote);
    assert!(!node.current.prevote_timeout_scheduled);
}

#[test]
fn repeated_prevotes_count_once() {
    let mut node = replica(1);
    node.start(0);
    fire_timers(&mut node, 1000);
    for _ in 0..3 {
        let vote = Prevote::new(0, 0, None);
        assert!(node.on_broadcast(Broadcast::Prevote(key(0).sign(vote)), 1001));
    }
    assert_eq!(node.current.step, Step::Prevote);
    let vote = Prevote::new(0, 0, None);
    assert!(node.on_broadcast(Broadcast::Prevote(key(2).sign(vote)), 1002));
    assert_eq!(node.current.step, Step::Prevote);
    let vote = Prevote::new(0, 0, None);
    assert!(node.on_broadcast(Broadcast::Prevote(key(3).sign(vote)), 1003));
    assert_eq!(node.current.step, Step::Precommit);
}

#[test]
fn forged_broadcast_is_dropped() {
    let mut node = replica(1);
    node.start(0);
    let mut contract = key(0).sign(Proposal { height: 0, round: 0, proposal: BLOCK, valid_round: None });
    contract.content.proposal = 7;
    assert!(!node.on_broadcast(Broadcast::Proposal(contract), 1));
    assert_eq!(node.current.step, Step::Propose);
}

#[test]
fn invalid_block_gets_nil_prevote() {
    let mut node = replica(1);
    node.start(0);
    let proposal = Proposal { height: 0, round: 0, proposal: 0u64, valid_round: None };
    assert!(node.on_broadcast(Broadcast::Proposal(key(0).sign(proposal)), 1));
    assert_eq!(node.current.step, Step::Prevote);
    assert!(matches!(node.outgoing.last(), Some(Message::Prevote(p)) if p.id.is_none()));
}

#[test]
fn lock_and_repropose() {
    let mut nodes: Vec<_> = (0..4).map(replica).collect();
    let all = [0, 1, 2, 3];
    let first = [0, 1, 2];
    for n in nodes.iter_mut() {
        n.start(0);
    }
    wave(&mut nodes, &all, &all, 10);
    // Replica 3's prevote is lost; the others see the polka and lock.
    nodes[3].take_outgoing();
    wave(&mut nodes, &first, &first, 20);
    for &i in &first {
        assert!(nodes[i].locked.as_ref().map(|r| r.value == BLOCK && r.round == 0).unwrap_or(false));
    }
    // Their precommits are lost too; every replica moves to round 1 on timeouts.
    for n in nodes.iter_mut() {
        n.take_outgoing();
    }
    for n in nodes.iter_mut() {
        fire_timers(n, 1010);
    }
    wave(&mut nodes, &all, &all, 1010);
    for n in nodes.iter_mut() {
        fire_timers(n, 2010);
        fire_timers(n, 3010);
    }
    for n in nodes.iter_mut() {
        n.take_outgoing();
    }
    // Replica 3 never saw the polka: it still takes part. Force the round change.
    for &i in &all {
        if nodes[i].current.round == 0 {
            let r = nodes[i].current.round;
            nodes[i].precommit_timeout(0, r, 3010);
        }
        assert_eq!(nodes[i].current.round, 1);
    }
    // Round 1's proposer is replica 1; it re-proposes the valid value with valid round 0.
    let reproposal = Proposal { height: 0, round: 1, proposal: BLOCK, valid_round: Some(0) };
    for &i in &all {
        nodes[i].outgoing.clear();
        assert!(nodes[i].on_broadcast(Broadcast::Proposal(key(1).sign(reproposal.clone())), 3020));
    }
    // Replica 3 never logged the round-0 polka; replicas 0..2 did and prevote for the value.
    for &i in &first {
        assert!(matches!(nodes[i].outgoing.last(), Some(Message::Prevote(p)) if p.round == 1 && p.id == block_id()));
    }
    wave(&mut nodes, &first, &all, 3030);
    wave(&mut nodes, &all, &all, 3040);
    for &i in &first {
        assert_eq!(nodes[i].app.decided().clone(), vec![BLOCK]);
    }
}

#[test]
fn timers_carry_their_round() {
    let mut node = replica(1);
    node.start(5);
    assert_eq!(node.timeouts.next_deadline(), Some(1005));
    let mut copy = replica(1);
    copy.start(5);
    assert_eq!(copy.timeouts.get_next(), Some(Timeouts::Propose { height: 0, round: 0 }));
}

#[test]
fn equivocating_proposer_gets_no_polka() {
    let mut nodes: Vec<_> = (0..4).map(replica).collect();
    let honest = [1, 2, 3];
    for &i in &honest {
        nodes[i].start(0);
    }
    let b1 = key(0).sign(Proposal { height: 0, round: 0, proposal: 41u64, valid_round: None });
    let b2 = key(0).sign(Proposal { height: 0, round: 0, proposal: 43u64, valid_round: None });
    for &i in &honest {
        let (first, second) = if i == 3 { (&b2, &b1) } else { (&b1, &b2) };
        assert!(nodes[i].on_broadcast(Broadcast::Proposal(first.clone()), 1));
        assert!(nodes[i].on_broadcast(Broadcast::Proposal(second.clone()), 2));
        assert_eq!(nodes[i].log.get_current().proposals.len(), 2);
    }
    wave(&mut nodes, &honest, &honest, 3);
    for &i in &honest {
        assert_eq!(nodes[i].current.step, Step::Prevote);
        assert!(nodes[i].locked.is_none());
        assert!(nodes[i].valid.is_none());
        assert!(nodes[i].app.decided().is_empty());
    }
}

#[test]
fn later_round_with_a_third_of_the_weight_is_joined() {
    let mut node = replica(1);
    node.start(0);
    for i in [0u8, 0] {
        let vote = Prevote::new(0, 3, None);
        assert!(node.on_broadcast(Broadcast::Prevote(key(i).sign(vote)), 1));
    }
    let facts = node.facts();
    assert_eq!(node.line55_check(&facts), None);
    let vote = Precommit::new(0, 3, None);
    assert!(node.on_broadcast(Broadcast::Precommit(key(2).sign(vote)), 2));
    let facts = node.facts();
    assert_eq!(node.line55_check(&facts), Some(3));
    assert!(node.line55(&facts, 3));
    assert_eq!(node.current.round, 3);
    assert_eq!(node.current.step, Step::Propose);
}
