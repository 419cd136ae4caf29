use vstd::prelude::*;

use crate::contracts::UserId;
use crate::hash;

verus! {

/// The weight of `id` in a list of (identity, weight) entries: the weight of the
/// last entry with that identity, or 0 where there is none.
pub open spec fn weight_of(entries: Seq<(Seq<u8>, u64)>, id: Seq<u8>) -> u64
    decreases entries.len(),
{
    if entries.len() == 0 {
        0
    } else if entries.last().0 == id {
        entries.last().1
    } else {
        weight_of(entries.drop_last(), id)
    }
}

/// The sum of all weights in a list of entries.
pub open spec fn total_of(entries: Seq<(Seq<u8>, u64)>) -> nat
    decreases entries.len(),
{
    if entries.len() == 0 {
        0
    } else {
        total_of(entries.drop_last()) + entries.last().1 as nat
    }
}

/// No identity appears twice.
pub open spec fn unique_ids(entries: Seq<(Seq<u8>, u64)>) -> bool {
    forall|i: int, j: int|
        0 <= i < entries.len() && 0 <= j < entries.len() && i != j ==> entries[i].0 != entries[j].0
}

proof fn lemma_weight_last_match(entries: Seq<(Seq<u8>, u64)>, i: int)
    requires
        0 <= i < entries.len(),
        forall|j: int| i < j < entries.len() ==> entries[j].0 != entries[i].0,
    ensures
        weight_of(entries, entries[i].0) == entries[i].1,
    decreases entries.len(),
{
    if i != entries.len() - 1 {
        let prev = entries.drop_last();
        assert(prev[i] == entries[i]);
        assert forall|j: int| i < j < prev.len() implies prev[j].0 != prev[i].0 by {
            assert(prev[j] == entries[j]);
        }
        lemma_weight_last_match(prev, i);
    }
}

proof fn lemma_weight_absent(entries: Seq<(Seq<u8>, u64)>, id: Seq<u8>)
    requires
        forall|i: int| 0 <= i < entries.len() ==> entries[i].0 != id,
    ensures
        weight_of(entries, id) == 0,
    decreases entries.len(),
{
    if entries.len() > 0 {
        let prev = entries.drop_last();
        assert forall|i: int| 0 <= i < prev.len() implies prev[i].0 != id by {
            assert(prev[i] == entries[i]);
        }
        lemma_weight_absent(prev, id);
    }
}

proof fn lemma_total_bound(entries: Seq<(Seq<u8>, u64)>)
    ensures
        total_of(entries) <= entries.len() * 0xffff_ffff_ffff_ffff,
    decreases entries.len(),
{
    if entries.len() > 0 {
        lemma_total_bound(entries.drop_last());
        assert(total_of(entries) <= entries.len() * 0xffff_ffff_ffff_ffff) by (nonlinear_arith)
            requires
                total_of(entries) == total_of(entries.drop_last()) + entries.last().1,
                total_of(entries.drop_last()) <= (entries.len() - 1) * 0xffff_ffff_ffff_ffff,
                entries.last().1 <= 0xffff_ffff_ffff_ffff,
        ;
    }
}

/// Stake-weighted validators of one height.
pub struct ValidatorSet {
    members: Vec<(UserId, u64)>,
}

impl View for ValidatorSet {
    type V = Seq<(Seq<u8>, u64)>;

    closed spec fn view(&self) -> Seq<(Seq<u8>, u64)> {
        self.members@.map_values(|m: (UserId, u64)| (m.0@, m.1))
    }
}

impl ValidatorSet {
    /// Each identity holds one entry.
    pub open spec fn wf(&self) -> bool {
        unique_ids(self@)
    }

    /// The voting weight of `id`, 0 for one that is not a validator.
    pub open spec fn weight_spec(&self, id: Seq<u8>) -> u64 {
        weight_of(self@, id)
    }

    /// The sum of all weights.
    pub open spec fn total_spec(&self) -> nat {
        total_of(self@)
    }

    /// The empty set.
    pub fn new() -> (r: ValidatorSet)
        ensures
            r.wf(),
            r@.len() == 0,
            forall|id: Seq<u8>| r.weight_spec(id) == 0,
    {
        let r = ValidatorSet { members: Vec::new() };
        assert(r@ =~= Seq::empty());
        r
    }

    /// Gives `id` the weight `weight`, replacing any weight it had.
    pub fn insert(&mut self, id: UserId, weight: u64)
        ensures
            old(self).wf() ==> final(self).wf(),
            final(self).weight_spec(id@) == weight,
            forall|k: Seq<u8>| k != id@ ==> final(self).weight_spec(k) == old(self).weight_spec(k),
    {
        let mut i: usize = self.members.len();
        while i > 0
            invariant
                i <= self@.len(),
                self@ == old(self)@,
                forall|j: int| i <= j < self@.len() ==> self@[j].0 != id@,
            decreases i,
        {
            i = i - 1;
            if self.members[i].0.same(&id) {
                let ghost before = self@;
                self.members.set(i, (id, weight));
                proof {
                    assert(self@ =~= before.update(i as int, (id@, weight)));
                    if unique_ids(before) {
                        assert forall|a: int, b: int| 0 <= a < self@.len() && 0 <= b < self@.len() && a != b
                            implies self@[a].0 != self@[b].0 by {
                            assert(self@[a].0 == before[a].0 && self@[b].0 == before[b].0);
                        }
                    }
                    assert forall|k: Seq<u8>| k != id@ implies weight_of(self@, k) == weight_of(before, k) by {
                        lemma_weight_update(before, i as int, weight, k);
                    }
                    lemma_weight_last_match(self@, i as int);
                }
                return;
            }
        }
        let ghost before = self@;
        self.members.push((id, weight));
        proof {
            assert(self@ =~= before.push((id@, weight)));
            assert(self@.drop_last() =~= before);
            if unique_ids(before) {
                assert forall|a: int, b: int| 0 <= a < self@.len() && 0 <= b < self@.len() && a != b
                    implies self@[a].0 != self@[b].0 by {
                    if a < before.len() && b < before.len() {
                        assert(self@[a] == before[a] && self@[b] == before[b]);
                    } else if a < before.len() {
                        assert(self@[a] == before[a]);
                    } else {
                        assert(self@[b] == before[b]);
                    }
                }
            }
        }
    }

    /// A copy of the set.
    pub fn copy(&self) -> (r: ValidatorSet)
        ensures
            r@ == self@,
    {
        let mut members: Vec<(UserId, u64)> = Vec::new();
        let mut i: usize = 0;
        while i < self.members.len()
            invariant
                i <= self.members@.len(),
                members@.len() == i,
                forall|j: int| 0 <= j < i ==> (#[trigger] members@[j]).0@ == self.members@[j].0@ && members@[j].1
                    == self.members@[j].1,
            decreases self.members@.len() - i,
        {
            let m = self.members[i];
            members.push(m);
            i = i + 1;
        }
        let r = ValidatorSet { members };
        assert(r@ =~= self@);
        r
    }

    /// The voting weight of `id`, 0 for one that is not a validator.
    pub fn weight(&self, id: &UserId) -> (r: u64)
        ensures
            r == self.weight_spec(id@),
    {
        let mut i: usize = self.members.len();
        while i > 0
            invariant
                i <= self@.len(),
                forall|j: int| i <= j < self@.len() ==> self@[j].0 != id@,
            decreases i,
        {
            i = i - 1;
            if self.members[i].0.same(id) {
                proof {
                    lemma_weight_last_match(self@, i as int);
                }
                return self.members[i].1;
            }
        }
        proof {
            lemma_weight_absent(self@, id@);
        }
        0
    }

    /// The sum of all weights.
    pub fn total_votes(&self) -> (r: u128)
        ensures
            r == self.total_spec(),
    {
        let mut sum: u128 = 0;
        let mut i: usize = 0;
        while i < self.members.len()
            invariant
                i <= self@.len(),
                sum == total_of(self@.subrange(0, i as int)),
            decreases self@.len() - i,
        {
            proof {
                lemma_total_bound(self@.subrange(0, i as int + 1));
                assert(self@.subrange(0, i as int + 1).drop_last() =~= self@.subrange(0, i as int));
                assert((i as int + 1) * 0xffff_ffff_ffff_ffff <= 0x1_0000_0000_0000_0000 * 0xffff_ffff_ffff_ffff)
                    by (nonlinear_arith)
                    requires i < 0x1_0000_0000_0000_0000int;
            }
            sum = sum + self.members[i].1 as u128;
            i = i + 1;
        }
        assert(self@.subrange(0, self@.len() as int) =~= self@);
        sum
    }
}

proof fn lemma_weight_update(s: Seq<(Seq<u8>, u64)>, i: int, w: u64, k: Seq<u8>)
    requires
        0 <= i < s.len(),
        k != s[i].0,
    ensures
        weight_of(s.update(i, (s[i].0, w)), k) == weight_of(s, k),
    decreases s.len(),
{
    let t = s.update(i, (s[i].0, w));
    if i < s.len() - 1 {
        assert(t.drop_last() =~= s.drop_last().update(i, (s[i].0, w)));
        lemma_weight_update(s.drop_last(), i, w, k);
    } else {
        assert(t.drop_last() =~= s.drop_last());
    }
}

/// Which vote values a tally admits.
pub enum IdFilter {
    /// Every vote, nil or not.
    Any,
    /// Votes for nil.
    Nil,
    /// Votes for the value with this digest.
    Value(hash::Hash),
}

/// Whether `filter` admits a vote for `id` (`None` is a vote for nil).
pub open spec fn admits(filter: IdFilter, id: Option<hash::Hash>) -> bool {
    match filter {
        IdFilter::Any => true,
        IdFilter::Nil => id is None,
        IdFilter::Value(h) => id is Some && id->0@ == h@,
    }
}

/// A vote reduced to what quorum accounting reads: who cast it, where, and for what.
#[derive(Clone, Copy)]
pub struct Ballot {
    pub signer: UserId,
    pub height: u64,
    pub round: u64,
    pub id: Option<hash::Hash>,
}

/// Whether a ballot is one of those that a tally at (`height`, `round`, `filter`) sums.
pub open spec fn counts(b: Ballot, height: u64, round: u64, filter: IdFilter) -> bool {
    b.height == height && b.round == round && admits(filter, b.id)
}

/// Whether one of the first `n` ballots counts and was cast by `signer`.
pub open spec fn counted_before(
    bs: Seq<Ballot>,
    n: int,
    height: u64,
    round: u64,
    filter: IdFilter,
    signer: Seq<u8>,
) -> bool {
    exists|j: int| 0 <= j < n && #[trigger] counts(bs[j], height, round, filter) && bs[j].signer@ == signer
}

/// The weight behind the ballots that count: each signer's weight is added once,
/// at its first counting ballot.
pub open spec fn tally_of(
    bs: Seq<Ballot>,
    height: u64,
    round: u64,
    filter: IdFilter,
    validators: Seq<(Seq<u8>, u64)>,
) -> nat
    decreases bs.len(),
{
    if bs.len() == 0 {
        0
    } else {
        let prev = bs.drop_last();
        let b = bs.last();
        tally_of(prev, height, round, filter, validators) + if counts(b, height, round, filter)
            && !counted_before(prev, prev.len() as int, height, round, filter, b.signer@) {
            weight_of(validators, b.signer@) as nat
        } else {
            0
        }
    }
}

fn ballot_counts(b: &Ballot, height: u64, round: u64, filter: &IdFilter) -> (r: bool)
    ensures
        r == counts(*b, height, round, *filter),
{
    if b.height != height || b.round != round {
        return false;
    }
    match filter {
        IdFilter::Any => true,
        IdFilter::Nil => b.id.is_none(),
        IdFilter::Value(h) => match &b.id {
            Some(x) => x.same(h),
            None => false,
        },
    }
}

fn seen_signer(seen: &Vec<UserId>, id: &UserId) -> (r: bool)
    ensures
        r == exists|k: int| 0 <= k < seen@.len() && seen@[k]@ == id@,
{
    let mut i: usize = 0;
    while i < seen.len()
        invariant
            i <= seen@.len(),
            forall|k: int| 0 <= k < i ==> seen@[k]@ != id@,
        decreases seen@.len() - i,
    {
        if seen[i].same(id) {
            return true;
        }
        i = i + 1;
    }
    false
}

/// The signer-deduplicated weight of the ballots cast at (`height`, `round`) for a
/// value that `filter` admits.
pub fn tally(
    ballots: &Vec<Ballot>,
    height: u64,
    round: u64,
    filter: &IdFilter,
    validators: &ValidatorSet,
) -> (r: u128)
    ensures
        r == tally_of(ballots@, height, round, *filter, validators@),
{
    let mut seen: Vec<UserId> = Vec::new();
    let mut sum: u128 = 0;
    let mut i: usize = 0;
    while i < ballots.len()
        invariant
            i <= ballots@.len(),
            sum == tally_of(ballots@.subrange(0, i as int), height, round, *filter, validators@),
            sum <= i * 0xffff_ffff_ffff_ffffnat,
            forall|s: Seq<u8>|
                (exists|k: int| 0 <= k < seen@.len() && seen@[k]@ == s) <==> #[trigger] counted_before(
                    ballots@,
                    i as int,
                    height,
                    round,
                    *filter,
                    s,
                ),
        decreases ballots@.len() - i,
    {
        let b = &ballots[i];
        let ghost prefix = ballots@.subrange(0, i as int + 1);
        proof {
            assert(prefix.drop_last() =~= ballots@.subrange(0, i as int));
            assert(prefix.last() == ballots@[i as int]);
            assert(counted_before(prefix.drop_last(), i as int, height, round, *filter, b.signer@)
                == counted_before(ballots@, i as int, height, round, *filter, b.signer@)) by {
                if counted_before(ballots@, i as int, height, round, *filter, b.signer@) {
                    let j = choose|j: int| 0 <= j < i && #[trigger] counts(ballots@[j], height, round, *filter)
                        && ballots@[j].signer@ == b.signer@;
                    assert(prefix.drop_last()[j] == ballots@[j]);
                }
                if counted_before(prefix.drop_last(), i as int, height, round, *filter, b.signer@) {
                    let j = choose|j: int| 0 <= j < i && #[trigger] counts(prefix.drop_last()[j], height, round, *filter)
                        && prefix.drop_last()[j].signer@ == b.signer@;
                    assert(prefix.drop_last()[j] == ballots@[j]);
                }
            }
            assert((i + 1) * 0xffff_ffff_ffff_ffffnat <= 0x1_0000_0000_0000_0000 * 0xffff_ffff_ffff_ffffnat)
                by (nonlinear_arith)
                requires i < 0x1_0000_0000_0000_0000int;
        }
        let ghost old_seen = seen@;
        if ballot_counts(b, height, round, filter) && !seen_signer(&seen, &b.signer) {
            let w = validators.weight(&b.signer);
            sum = sum + w as u128;
            seen.push(b.signer);
            proof {
                assert forall|s: Seq<u8>|
                    (exists|k: int| 0 <= k < seen@.len() && seen@[k]@ == s) <==> #[trigger] counted_before(
                        ballots@, i as int + 1, height, round, *filter, s) by {
                    if counted_before(ballots@, i as int + 1, height, round, *filter, s) {
                        let j = choose|j: int| 0 <= j < i + 1 && #[trigger] counts(ballots@[j], height, round, *filter)
                            && ballots@[j].signer@ == s;
                        if j < i {
                            assert(counted_before(ballots@, i as int, height, round, *filter, s));
                            let k = choose|k: int| 0 <= k < old_seen.len() && old_seen[k]@ == s;
                            assert(seen@[k] == old_seen[k]);
                        } else {
                            assert(seen@[old_seen.len() as int]@ == s);
                        }
                    }
                    if exists|k: int| 0 <= k < seen@.len() && seen@[k]@ == s {
                        let k = choose|k: int| 0 <= k < seen@.len() && seen@[k]@ == s;
                        if k < old_seen.len() {
                            assert(old_seen[k] == seen@[k]);
                            assert(counted_before(ballots@, i as int, height, round, *filter, s));
                            let j = choose|j: int| 0 <= j < i && #[trigger] counts(ballots@[j], height, round, *filter)
                                && ballots@[j].signer@ == s;
                            assert(0 <= j < i + 1);
                        } else {
                            assert(counts(ballots@[i as int], height, round, *filter));
                        }
                    }
                }
            }
        } else {
            proof {
                assert forall|s: Seq<u8>|
                    (exists|k: int| 0 <= k < seen@.len() && seen@[k]@ == s) <==> #[trigger] counted_before(
                        ballots@, i as int + 1, height, round, *filter, s) by {
                    if counted_before(ballots@, i as int + 1, height, round, *filter, s) {
                        let j = choose|j: int| 0 <= j < i + 1 && #[trigger] counts(ballots@[j], height, round, *filter)
                            && ballots@[j].signer@ == s;
                        if j < i {
                            assert(counted_before(ballots@, i as int, height, round, *filter, s));
                        } else {
                            assert(exists|k: int| 0 <= k < old_seen.len() && old_seen[k]@ == ballots@[i as int].signer@);
                        }
                    }
                    if exists|k: int| 0 <= k < seen@.len() && seen@[k]@ == s {
                        assert(counted_before(ballots@, i as int, height, round, *filter, s));
                        let j = choose|j: int| 0 <= j < i && #[trigger] counts(ballots@[j], height, round, *filter)
                            && ballots@[j].signer@ == s;
                        assert(0 <= j < i + 1);
                    }
                }
            }
        }
        i = i + 1;
    }
    assert(ballots@.subrange(0, ballots@.len() as int) =~= ballots@);
    sum
}

/// However many ballots one signer casts, a tally counts its weight at most once:
/// over ballots that all come from `signer`, the tally is its weight if one of them
/// counts, and 0 otherwise.
pub proof fn lemma_signer_counted_once(
    bs: Seq<Ballot>,
    height: u64,
    round: u64,
    filter: IdFilter,
    validators: Seq<(Seq<u8>, u64)>,
    signer: Seq<u8>,
)
    requires
        forall|i: int| 0 <= i < bs.len() ==> (#[trigger] bs[i]).signer@ == signer,
    ensures
        tally_of(bs, height, round, filter, validators) == if counted_before(
            bs,
            bs.len() as int,
            height,
            round,
            filter,
            signer,
        ) {
            weight_of(validators, signer) as nat
        } else {
            0
        },
    decreases bs.len(),
{
    if bs.len() > 0 {
        let prev = bs.drop_last();
        assert forall|i: int| 0 <= i < prev.len() implies (#[trigger] prev[i]).signer@ == signer by {
            assert(prev[i] == bs[i]);
        }
        lemma_signer_counted_once(prev, height, round, filter, validators, signer);
        let n = prev.len() as int;
        if counted_before(prev, n, height, round, filter, signer) {
            let j = choose|j: int| 0 <= j < n && #[trigger] counts(prev[j], height, round, filter)
                && prev[j].signer@ == signer;
            assert(bs[j] == prev[j]);
            assert(counted_before(bs, bs.len() as int, height, round, filter, signer));
        } else if counts(bs.last(), height, round, filter) {
            assert(counts(bs[n], height, round, filter));
            assert(counted_before(bs, bs.len() as int, height, round, filter, signer));
        } else {
            if counted_before(bs, bs.len() as int, height, round, filter, signer) {
                let j = choose|j: int| 0 <= j < bs.len() && #[trigger] counts(bs[j], height, round, filter)
                    && bs[j].signer@ == signer;
                if j < n {
                    assert(prev[j] == bs[j]);
                }
            }
        }
    }
}

/// The total weight of the entries whose identity satisfies `p`.
pub open spec fn weight_where(entries: Seq<(Seq<u8>, u64)>, p: spec_fn(Seq<u8>) -> bool) -> nat
    decreases entries.len(),
{
    if entries.len() == 0 {
        0
    } else {
        weight_where(entries.drop_last(), p) + if p(entries.last().0) {
            entries.last().1 as nat
        } else {
            0
        }
    }
}

proof fn lemma_weight_where_congruent(
    entries: Seq<(Seq<u8>, u64)>,
    p: spec_fn(Seq<u8>) -> bool,
    q: spec_fn(Seq<u8>) -> bool,
)
    requires
        forall|i: int| 0 <= i < entries.len() ==> p(#[trigger] entries[i].0) == q(entries[i].0),
    ensures
        weight_where(entries, p) == weight_where(entries, q),
    decreases entries.len(),
{
    if entries.len() > 0 {
        let prev = entries.drop_last();
        assert forall|i: int| 0 <= i < prev.len() implies p(#[trigger] prev[i].0) == q(prev[i].0) by {
            assert(prev[i] == entries[i]);
        }
        assert(p(entries[entries.len() - 1].0) == q(entries[entries.len() - 1].0));
        lemma_weight_where_congruent(prev, p, q);
    }
}

proof fn lemma_weight_where_add(
    entries: Seq<(Seq<u8>, u64)>,
    p: spec_fn(Seq<u8>) -> bool,
    q: spec_fn(Seq<u8>) -> bool,
    s: Seq<u8>,
)
    requires
        unique_ids(entries),
        !p(s),
        forall|t: Seq<u8>| #[trigger] q(t) == (p(t) || t == s),
    ensures
        weight_where(entries, q) == weight_where(entries, p) + weight_of(entries, s),
    decreases entries.len(),
{
    if entries.len() > 0 {
        let prev = entries.drop_last();
        let e = entries.last();
        assert forall|a: int, b: int| 0 <= a < prev.len() && 0 <= b < prev.len() && a != b implies prev[a].0
            != prev[b].0 by {
            assert(prev[a] == entries[a] && prev[b] == entries[b]);
        }
        if e.0 == s {
            assert forall|i: int| 0 <= i < prev.len() implies q(#[trigger] prev[i].0) == p(prev[i].0) by {
                assert(prev[i] == entries[i]);
                assert(entries[i].0 != entries[entries.len() - 1].0);
            }
            lemma_weight_where_congruent(prev, q, p);
        } else {
            lemma_weight_where_add(prev, p, q, s);
        }
    }
}

proof fn lemma_weight_where_disjoint(
    entries: Seq<(Seq<u8>, u64)>,
    p: spec_fn(Seq<u8>) -> bool,
    q: spec_fn(Seq<u8>) -> bool,
)
    requires
        forall|t: Seq<u8>| !(#[trigger] p(t) && q(t)),
    ensures
        weight_where(entries, p) + weight_where(entries, q) <= total_of(entries),
    decreases entries.len(),
{
    if entries.len() > 0 {
        lemma_weight_where_disjoint(entries.drop_last(), p, q);
        assert(!(p(entries.last().0) && q(entries.last().0)));
    }
}

proof fn lemma_tally_is_weight_where(
    bs: Seq<Ballot>,
    height: u64,
    round: u64,
    filter: IdFilter,
    validators: Seq<(Seq<u8>, u64)>,
)
    requires
        unique_ids(validators),
    ensures
        tally_of(bs, height, round, filter, validators) == weight_where(
            validators,
            |s: Seq<u8>| counted_before(bs, bs.len() as int, height, round, filter, s),
        ),
    decreases bs.len(),
{
    let p = |s: Seq<u8>| counted_before(bs, bs.len() as int, height, round, filter, s);
    if bs.len() == 0 {
        lemma_weight_where_congruent(validators, p, |s: Seq<u8>| false);
        lemma_weight_where_none(validators);
    } else {
        let prev = bs.drop_last();
        let b = bs.last();
        let n = prev.len() as int;
        lemma_tally_is_weight_where(prev, height, round, filter, validators);
        let q = |s: Seq<u8>| counted_before(prev, n, height, round, filter, s);
        assert forall|t: Seq<u8>| #[trigger] p(t) == (q(t) || (counts(b, height, round, filter) && b.signer@ == t)) by {
            if counted_before(bs, bs.len() as int, height, round, filter, t) {
                let j = choose|j: int| 0 <= j < bs.len() && #[trigger] counts(bs[j], height, round, filter)
                    && bs[j].signer@ == t;
                if j < n {
                    assert(prev[j] == bs[j]);
                }
            }
            if counted_before(prev, n, height, round, filter, t) {
                let j = choose|j: int| 0 <= j < n && #[trigger] counts(prev[j], height, round, filter)
                    && prev[j].signer@ == t;
                assert(prev[j] == bs[j]);
            }
            if counts(b, height, round, filter) && b.signer@ == t {
                assert(bs[n] == b);
            }
        }
        if counts(b, height, round, filter) && !q(b.signer@) {
            lemma_weight_where_add(validators, q, p, b.signer@);
        } else {
            assert forall|i: int| 0 <= i < validators.len() implies p(#[trigger] validators[i].0) == q(
                validators[i].0,
            ) by {}
            lemma_weight_where_congruent(validators, p, q);
        }
    }
}

proof fn lemma_weight_where_none(entries: Seq<(Seq<u8>, u64)>)
    ensures
        weight_where(entries, |s: Seq<u8>| false) == 0,
    decreases entries.len(),
{
    if entries.len() > 0 {
        lemma_weight_where_none(entries.drop_last());
    }
}

/// Two values cannot both gather more than two thirds of the weight at one
/// (height, round) unless some validator voted for both: where no signer's counted
/// ballots include votes for `x` and for `y`, their tallies sum to at most the total
/// weight. With total weight 4, `two_f` is 2, so at most one of them has a polka.
pub proof fn lemma_no_two_polkas(
    bs: Seq<Ballot>,
    height: u64,
    round: u64,
    x: hash::Hash,
    y: hash::Hash,
    validators: Seq<(Seq<u8>, u64)>,
)
    requires
        unique_ids(validators),
        forall|s: Seq<u8>|
            !(#[trigger] counted_before(bs, bs.len() as int, height, round, IdFilter::Value(x), s)
                && counted_before(bs, bs.len() as int, height, round, IdFilter::Value(y), s)),
    ensures
        tally_of(bs, height, round, IdFilter::Value(x), validators) + tally_of(
            bs,
            height,
            round,
            IdFilter::Value(y),
            validators,
        ) <= total_of(validators),
{
    lemma_tally_is_weight_where(bs, height, round, IdFilter::Value(x), validators);
    lemma_tally_is_weight_where(bs, height, round, IdFilter::Value(y), validators);
    let p = |s: Seq<u8>| counted_before(bs, bs.len() as int, height, round, IdFilter::Value(x), s);
    let q = |s: Seq<u8>| counted_before(bs, bs.len() as int, height, round, IdFilter::Value(y), s);
    assert forall|t: Seq<u8>| !(#[trigger] p(t) && q(t)) by {}
    lemma_weight_where_disjoint(validators, p, q);
}

} // verus!
