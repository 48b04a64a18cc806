//! The deduplication table of a search: for each fingerprint the best score
//! seen, and the parent fingerprint and action that reached it.

use vstd::prelude::*;
use std::collections::HashMap;
use crate::names::ActionName;

verus! {

/// The table as a mathematical value.
pub struct DedupModel {
    /// Best score seen, by fingerprint.
    pub best: Map<u64, u32>,
    /// Parent fingerprint and action, by fingerprint.
    pub parent: Map<u64, (u64, ActionName)>,
}

impl DedupModel {
    /// The table with no entry.
    pub open spec fn empty() -> DedupModel {
        DedupModel { best: Map::empty(), parent: Map::empty() }
    }

    /// Both maps have the same finite set of fingerprints.
    pub open spec fn wf(self) -> bool {
        &&& self.best.dom().finite()
        &&& self.best.dom() == self.parent.dom()
    }

    /// Whether `print` has no entry yet.
    pub open spec fn is_new(self, print: u64) -> bool {
        !self.best.dom().contains(print)
    }

    /// Whether an offer of `score` for `print` changes the table: the
    /// fingerprint is new, or the score is higher than the recorded one.
    pub open spec fn improves(self, print: u64, score: u32) -> bool {
        self.is_new(print) || score > self.best[print]
    }

    /// The table after a state with fingerprint `print` and score `score`
    /// was offered, reached from `from` by `action`. The entry is written
    /// where the offer improves on the table, which is otherwise unchanged.
    pub open spec fn offer(self, print: u64, score: u32, from: u64, action: ActionName) -> DedupModel {
        if self.improves(print, score) {
            DedupModel {
                best: self.best.insert(print, score),
                parent: self.parent.insert(print, (from, action)),
            }
        } else {
            self
        }
    }

    /// The actions on the way from `print` back to the root, last action
    /// first, following at most `fuel` parent links. The root is the entry
    /// whose action is the sentinel.
    pub open spec fn trail(self, print: u64, fuel: nat) -> Seq<ActionName>
        decreases fuel,
    {
        if fuel == 0 || !self.parent.dom().contains(print) {
            Seq::empty()
        } else {
            let link = self.parent[print];
            if link.1 == ActionName::NoAction {
                Seq::empty()
            } else {
                seq![link.1] + self.trail(link.0, (fuel - 1) as nat)
            }
        }
    }

    /// The actions that lead from the root to `print`, first action first.
    pub open spec fn route(self, print: u64) -> Seq<ActionName> {
        self.trail(print, self.parent.dom().len()).reverse()
    }

    /// No route passes through the sentinel.
    pub proof fn lemma_trail_real(self, print: u64, fuel: nat)
        ensures
            self.trail(print, fuel).len() <= fuel,
            forall|i: int|
                0 <= i < self.trail(print, fuel).len() ==> #[trigger] self.trail(print, fuel)[i]
                    != ActionName::NoAction,
        decreases fuel,
    {
        if fuel > 0 && self.parent.dom().contains(print) && self.parent[print].1
            != ActionName::NoAction {
            self.lemma_trail_real(self.parent[print].0, (fuel - 1) as nat);
        }
    }

    /// An offer keeps the table well-formed, never removes a fingerprint and
    /// adds at most the one offered.
    pub proof fn lemma_offer_wf(self, print: u64, score: u32, from: u64, action: ActionName)
        requires
            self.wf(),
        ensures
            self.offer(print, score, from, action).wf(),
            self.offer(print, score, from, action).best.dom() == self.best.dom().insert(print),
            self.offer(print, score, from, action).best.dom().len() == self.best.dom().len() + (
            if self.is_new(print) {
                1nat
            } else {
                0nat
            }),
    {
        let next = self.offer(print, score, from, action);
        assert(next.best.dom() =~= self.best.dom().insert(print));
        assert(next.parent.dom() =~= self.parent.dom().insert(print));
    }

    /// After an offer the recorded score of the fingerprint is the higher of
    /// the offered score and the score recorded before; every other entry
    /// is untouched.
    pub proof fn lemma_offer_keeps_higher(
        self,
        print: u64,
        score: u32,
        from: u64,
        action: ActionName,
    )
        ensures
            self.offer(print, score, from, action).best.dom().contains(print),
            self.offer(print, score, from, action).best[print] == (if self.is_new(print) || score
                > self.best[print] {
                score
            } else {
                self.best[print]
            }),
            forall|other: u64|
                other != print && self.best.dom().contains(other) ==> #[trigger] self.offer(
                    print,
                    score,
                    from,
                    action,
                ).best[other] == self.best[other],
    {
    }

    /// Offering a known fingerprint again with an equal or lower score
    /// changes nothing: neither the recorded score nor the parent link.
    pub proof fn lemma_offer_never_regresses(
        self,
        print: u64,
        score: u32,
        from: u64,
        action: ActionName,
    )
        requires
            !self.is_new(print),
            score <= self.best[print],
        ensures
            self.offer(print, score, from, action) == self,
    {
    }

    /// Whatever is offered in whatever order, the recorded score of a known
    /// fingerprint never goes down.
    pub proof fn lemma_offer_monotone(
        self,
        print: u64,
        score: u32,
        from: u64,
        action: ActionName,
        known: u64,
    )
        requires
            !self.is_new(known),
        ensures
            !self.offer(print, score, from, action).is_new(known),
            self.offer(print, score, from, action).best[known] >= self.best[known],
    {
    }
}

/// The deduplication table of one search.
pub struct Dedup {
    damages: HashMap<u64, u32>,
    history: HashMap<u64, (u64, ActionName)>,
}

impl Dedup {
    /// The table as a mathematical value.
    pub closed spec fn view(&self) -> DedupModel {
        DedupModel { best: self.damages@, parent: self.history@ }
    }

    /// The table with no entry.
    pub fn new() -> (r: Dedup)
        ensures
            r@ == DedupModel::empty(),
    {
        Dedup { damages: HashMap::new(), history: HashMap::new() }
    }

    /// Number of fingerprints recorded.
    pub fn len(&self) -> (n: usize)
        ensures
            n == self@.best.dom().len(),
    {
        self.damages.len()
    }

    /// The best score recorded for `print`, if it has an entry.
    pub fn best(&self, print: u64) -> (r: Option<u32>)
        ensures
            r == (if self@.is_new(print) {
                None
            } else {
                Some(self@.best[print])
            }),
    {
        match self.damages.get(&print) {
            None => None,
            Some(score) => Some(*score),
        }
    }

    /// The parent fingerprint and the action recorded for `print`, if it has
    /// an entry.
    pub fn link(&self, print: u64) -> (r: Option<(u64, ActionName)>)
        ensures
            r == (if self@.parent.dom().contains(print) {
                Some(self@.parent[print])
            } else {
                None
            }),
    {
        match self.history.get(&print) {
            None => None,
            Some(link) => Some(*link),
        }
    }

    /// Offers a state with fingerprint `print` and score `score`, reached
    /// from `from` by `action`. Returns whether the fingerprint was new.
    pub fn offer(&mut self, print: u64, score: u32, from: u64, action: ActionName) -> (fresh: bool)
        ensures
            final(self)@ == old(self)@.offer(print, score, from, action),
            fresh == old(self)@.is_new(print),
    {
        match self.best(print) {
            None => {
                self.damages.insert(print, score);
                self.history.insert(print, (from, action));
                true
            },
            Some(known) => {
                if score > known {
                    self.damages.insert(print, score);
                    self.history.insert(print, (from, action));
                }
                false
            },
        }
    }

    /// The actions that lead from the root to `print`.
    pub fn route(&self, print: u64) -> (r: Vec<ActionName>)
        ensures
            r@ == self@.route(print),
    {
        let total = self.history.len();
        let mut back: Vec<ActionName> = Vec::new();
        let mut at = print;
        let mut fuel = total;
        let mut live = true;
        while live && fuel > 0
            invariant
                total == self@.parent.dom().len(),
                back@ + (if live {
                    self@.trail(at, fuel as nat)
                } else {
                    Seq::empty()
                }) == self@.trail(print, total as nat),
            decreases
                    (if live {
                        1nat
                    } else {
                        0nat
                    }),
                    fuel,
        {
            match self.link(at) {
                None => {
                    live = false;
                },
                Some(link) => {
                    match link.1 {
                        ActionName::NoAction => {
                            live = false;
                        },
                        action => {
                            let ghost before = back@;
                            back.push(action);
                            assert(back@ + self@.trail(link.0, (fuel - 1) as nat) =~= before + (
                            seq![action] + self@.trail(link.0, (fuel - 1) as nat)));
                            at = link.0;
                            fuel -= 1;
                        },
                    }
                },
            }
        }
        assert(back@ =~= self@.trail(print, total as nat));
        let n = back.len();
        let mut r: Vec<ActionName> = Vec::new();
        let mut k = n;
        while k > 0
            invariant
                n == back.len(),
                k <= n,
                r.len() == n - k,
                forall|j: int| 0 <= j < r.len() ==> r[j] == back[n - 1 - j],
            decreases k,
        {
            k -= 1;
            r.push(back[k]);
        }
        assert(r@ =~= back@.reverse());
        r
    }
}

} // verus!
