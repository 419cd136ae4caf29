use std::collections::HashMap;
use vstd::prelude::*;

use crate::contracts::Contract;
use crate::hash::Hashable;
use crate::types::{Broadcast, Precommit, Prevote, Proposal};

verus! {

broadcast use vstd::std_specs::hash::group_hash_axioms;

/// How many heights the log holds, starting at the current one.
pub const LIMIT: u64 = 5;

/// The messages received for one height, by kind, in arrival order.
pub struct Messages<B: Hashable> {
    pub proposals: Vec<Contract<Proposal<B>>>,
    pub prevotes: Vec<Contract<Prevote<B>>>,
    pub precommits: Vec<Contract<Precommit<B>>>,
}

impl<B: Hashable> Messages<B> {
    /// No messages.
    pub open spec fn is_empty(&self) -> bool {
        self.proposals@.len() == 0 && self.prevotes@.len() == 0 && self.precommits@.len() == 0
    }

    pub fn new() -> (r: Messages<B>)
        ensures
            r.is_empty(),
    {
        Messages { proposals: Vec::new(), prevotes: Vec::new(), precommits: Vec::new() }
    }
}

/// The messages of a sliding window of `LIMIT` heights, starting at the current one,
/// keyed by height.
pub struct MessageLog<B: Hashable> {
    height: u64,
    messages: HashMap<u64, Messages<B>>,
}

impl<B: Hashable> MessageLog<B> {
    /// The first height of the window.
    pub closed spec fn height_spec(&self) -> u64 {
        self.height
    }

    /// The messages kept, by height.
    pub closed spec fn by_height(&self) -> Map<u64, Messages<B>> {
        self.messages@
    }

    /// The messages of each height in the window, the current height first.
    pub open spec fn slots(&self) -> Seq<Messages<B>> {
        Seq::new(LIMIT as nat, |i: int| self.by_height()[(self.height_spec() + i) as u64])
    }

    /// The window lies below the largest height, and exactly its heights are kept.
    pub open spec fn wf(&self) -> bool {
        &&& self.height_spec() + LIMIT <= u64::MAX
        &&& forall|h: u64| #[trigger] self.by_height().contains_key(h) <==> self.in_window(h)
    }

    /// Whether messages for height `h` are kept.
    pub open spec fn in_window(&self, h: u64) -> bool {
        self.height_spec() <= h < self.height_spec() + LIMIT
    }

    /// The messages kept for height `h`, which lies in the window.
    pub open spec fn at(&self, h: u64) -> Messages<B>
        recommends
            self.in_window(h),
    {
        self.slots()[h - self.height_spec()]
    }

    /// An empty log whose window starts at height 0.
    pub fn new() -> (r: MessageLog<B>)
        ensures
            r.wf(),
            r.height_spec() == 0,
            forall|i: int| 0 <= i < LIMIT ==> (#[trigger] r.slots()[i]).is_empty(),
    {
        let mut messages: HashMap<u64, Messages<B>> = HashMap::new();
        let mut i: u64 = 0;
        while i < LIMIT
            invariant
                i <= LIMIT,
                forall|h: u64| #[trigger] messages@.contains_key(h) <==> h < i,
                forall|h: u64| h < i ==> (#[trigger] messages@[h]).is_empty(),
            decreases LIMIT - i,
        {
            messages.insert(i, Messages::new());
            i = i + 1;
        }
        let r = MessageLog { height: 0, messages };
        assert forall|j: int| 0 <= j < LIMIT implies (#[trigger] r.slots()[j]).is_empty() by {
            assert(r.slots()[j] == messages@[j as u64]);
        }
        r
    }

    /// The first height of the window.
    pub fn height(&self) -> (r: u64)
        ensures
            r == self.height_spec(),
    {
        self.height
    }

    /// Moves the window one height up: the oldest height's messages are dropped and
    /// an empty entry for the new last height is added.
    pub fn increment_height(&mut self)
        requires
            old(self).wf(),
            old(self).height_spec() + LIMIT < u64::MAX,
        ensures
            final(self).wf(),
            final(self).height_spec() == old(self).height_spec() + 1,
            final(self).slots() == old(self).slots().drop_first().push(final(self).slots().last()),
            final(self).slots().last().is_empty(),
    {
        let ghost before = self.messages@;
        let first = self.height;
        self.messages.remove(&first);
        assert(self.messages@ == before.remove(first));
        let fresh = Messages::new();
        let ghost fresh_view = fresh;
        self.messages.insert(first + LIMIT, fresh);
        assert(self.messages@ == before.remove(first).insert((first + LIMIT) as u64, fresh_view));
        self.height = self.height + 1;
        assert forall|h: u64| #[trigger] self.by_height().contains_key(h) <==> self.in_window(h) by {
            assert(old(self).by_height().contains_key(h) == old(self).in_window(h));
        }
        assert forall|i: int| 0 <= i < LIMIT - 1 implies #[trigger] self.slots()[i] == old(self).slots()[i + 1] by {
            assert(self.by_height()[(self.height + i) as u64] == before[(old(self).height + i + 1) as u64]);
        }
        assert(self.slots() =~= old(self).slots().drop_first().push(self.slots().last()));
    }

    /// This log is `before` with `broadcast` kept with the messages of its height and
    /// kind where that height lies in the window, and `before` itself otherwise.
    pub open spec fn is_add_of(&self, before: &MessageLog<B>, broadcast: Broadcast<B>) -> bool {
        &&& self.wf()
        &&& self.height_spec() == before.height_spec()
        &&& !before.in_window(broadcast.height_spec()) ==> self.slots() == before.slots()
        &&& before.in_window(broadcast.height_spec()) ==> {
            let k = broadcast.height_spec() - before.height_spec();
            &&& forall|j: int| 0 <= j < LIMIT && j != k ==> self.slots()[j] == before.slots()[j]
            &&& self.slots()[k].proposals@ == match broadcast {
                Broadcast::Proposal(c) => before.slots()[k].proposals@.push(c),
                _ => before.slots()[k].proposals@,
            }
            &&& self.slots()[k].prevotes@ == match broadcast {
                Broadcast::Prevote(c) => before.slots()[k].prevotes@.push(c),
                _ => before.slots()[k].prevotes@,
            }
            &&& self.slots()[k].precommits@ == match broadcast {
                Broadcast::Precommit(c) => before.slots()[k].precommits@.push(c),
                _ => before.slots()[k].precommits@,
            }
        }
    }

    /// Keeps `broadcast` with the messages of its height and kind, where that height
    /// lies in the window; otherwise drops it.
    pub fn add(&mut self, broadcast: Broadcast<B>)
        requires
            old(self).wf(),
        ensures
            final(self).is_add_of(old(self), broadcast),
    {
        let h = match &broadcast {
            Broadcast::Proposal(c) => c.content.height,
            Broadcast::Prevote(c) => c.content.height,
            Broadcast::Precommit(c) => c.content.height,
        };
        if h < self.height || h - self.height >= LIMIT {
            assert(self.slots() =~= old(self).slots());
            return;
        }
        let ghost before = self.messages@;
        assert(old(self).by_height().contains_key(h) == old(self).in_window(h));
        match self.messages.remove(&h) {
            Some(mut m) => {
                assert(self.messages@ == before.remove(h));
                match broadcast {
                    Broadcast::Proposal(c) => m.proposals.push(c),
                    Broadcast::Prevote(c) => m.prevotes.push(c),
                    Broadcast::Precommit(c) => m.precommits.push(c),
                }
                let ghost mv = m;
                self.messages.insert(h, m);
                assert(self.messages@ == before.remove(h).insert(h, mv));
            },
            None => {},
        }
        let ghost k = h - self.height;
        assert forall|j: int| 0 <= j < LIMIT && j != k implies self.slots()[j] == old(self).slots()[j] by {
            assert(self.by_height()[(self.height + j) as u64] == before[(self.height + j) as u64]);
        }
        assert forall|g: u64| #[trigger] self.by_height().contains_key(g) <==> self.in_window(g) by {
            assert(old(self).by_height().contains_key(g) == old(self).in_window(g));
        }
        assert(self.slots()[k] == self.by_height()[h]);
    }

    /// The messages of the current height.
    pub fn get_current(&self) -> (r: &Messages<B>)
        requires
            self.wf(),
        ensures
            *r == self.slots()[0],
    {
        assert(self.in_window(self.height));
        let r = self.messages.get(&self.height);
        assert(self.slots()[0] == self.by_height()[self.height]);
        r.unwrap()
    }

    /// The messages kept for height `h`, if it lies in the window.
    pub fn get(&self, h: u64) -> (r: Option<&Messages<B>>)
        requires
            self.wf(),
        ensures
            self.in_window(h) ==> r == Some(&self.at(h)),
            !self.in_window(h) ==> r is None,
    {
        if h < self.height || h - self.height >= LIMIT {
            None
        } else {
            assert(self.at(h) == self.by_height()[h]);
            self.messages.get(&h)
        }
    }
}

} // verus!
