//! The frontier of a search: the states that wait to be expanded. The state
//! that ranks highest leaves first.

use vstd::prelude::*;
use crate::model::PlayerModel;
use crate::order::outranks;
use crate::player::Player;

verus! {

/// The position of the state that leaves next among the first `n` states
/// of `s`: the first state is the candidate, and each later state replaces
/// the candidate where it ranks strictly above it.
pub open spec fn best_upto(s: Seq<PlayerModel>, n: nat) -> int
    decreases n,
{
    if n <= 1 {
        0
    } else {
        let held = best_upto(s, (n - 1) as nat);
        if outranks(s[n - 1], s[held]) {
            n - 1
        } else {
            held
        }
    }
}

/// The position of the state that leaves `s` next.
pub open spec fn best_index(s: Seq<PlayerModel>) -> int {
    best_upto(s, s.len())
}

/// The chosen position lies among the first `n`, and no state after it
/// among them ranks above the chosen one.
pub proof fn lemma_best_upto(s: Seq<PlayerModel>, n: nat)
    requires
        1 <= n <= s.len(),
    ensures
        0 <= best_upto(s, n) < n,
        forall|j: int| best_upto(s, n) < j < n ==> !outranks(#[trigger] s[j], s[best_upto(s, n)]),
    decreases n,
{
    if n > 1 {
        lemma_best_upto(s, (n - 1) as nat);
    }
}

/// Rates compared by cross-multiplication chain: where `a` is no slower
/// than `x` and `x` no slower than `h`, `a` is no slower than `h`, and
/// strictly faster where one of the two steps is strict. Each pair is a
/// score and a positive time.
proof fn lemma_cross_chain(ad: nat, at: nat, xd: nat, xt: nat, hd: nat, ht: nat)
    by (nonlinear_arith)
    requires
        at > 0,
        xt > 0,
        ht > 0,
        ad * xt >= xd * at,
        xd * ht >= hd * xt,
    ensures
        ad * ht >= hd * at,
        ad * xt > xd * at || xd * ht > hd * xt ==> ad * ht > hd * at,
{
    assert(ad * xt * ht >= xd * at * ht);
    assert(xd * ht * at >= hd * xt * at);
    assert((ad * ht) * xt >= (hd * at) * xt);
    if ad * xt > xd * at {
        assert(ad * xt * ht > xd * at * ht);
        assert((ad * ht) * xt > (hd * at) * xt);
    }
    if xd * ht > hd * xt {
        assert(xd * ht * at > hd * xt * at);
        assert((ad * ht) * xt > (hd * at) * xt);
    }
}

/// Among states that have spent time, ranking above is transitive.
pub proof fn lemma_outranks_transitive(a: PlayerModel, x: PlayerModel, h: PlayerModel)
    requires
        a.time > 0,
        x.time > 0,
        h.time > 0,
        outranks(a, x),
        outranks(x, h),
    ensures
        outranks(a, h),
{
    lemma_cross_chain(a.damage, a.time, x.damage, x.time, h.damage, h.time);
}

/// Among states that have spent time, the state that leaves next ranks at
/// least as high as every other: none of the first `n` ranks above the
/// chosen one.
pub proof fn lemma_best_is_top(s: Seq<PlayerModel>, n: nat)
    requires
        1 <= n <= s.len(),
        forall|i: int| 0 <= i < n ==> (#[trigger] s[i]).time > 0,
    ensures
        0 <= best_upto(s, n) < n,
        forall|j: int| 0 <= j < n ==> !outranks(#[trigger] s[j], s[best_upto(s, n)]),
    decreases n,
{
    if n > 1 {
        lemma_best_is_top(s, (n - 1) as nat);
        let held = best_upto(s, (n - 1) as nat);
        let last = s[n - 1];
        if outranks(last, s[held]) {
            assert forall|j: int| 0 <= j < n implies !outranks(#[trigger] s[j], last) by {
                if j < n - 1 && outranks(s[j], last) {
                    lemma_outranks_transitive(s[j], last, s[held]);
                }
            }
        }
    }
}

/// The states that wait to be expanded, in the order they were added.
pub struct Frontier {
    items: Vec<Player>,
}

impl Frontier {
    /// The waiting states as mathematical values.
    pub closed spec fn view(&self) -> Seq<PlayerModel> {
        self.items@.map_values(|p: Player| p@)
    }

    /// The empty frontier.
    pub fn new() -> (r: Frontier)
        ensures
            r@ == Seq::<PlayerModel>::empty(),
    {
        let r = Frontier { items: Vec::new() };
        assert(r@ =~= Seq::<PlayerModel>::empty());
        r
    }

    /// Number of waiting states.
    pub fn len(&self) -> (n: usize)
        ensures
            n == self@.len(),
    {
        self.items.len()
    }

    /// Whether no state waits.
    pub fn is_empty(&self) -> (b: bool)
        ensures
            b == (self@.len() == 0),
    {
        self.items.len() == 0
    }

    /// Adds a state.
    pub fn push(&mut self, p: Player)
        ensures
            final(self)@ == old(self)@.push(p@),
    {
        self.items.push(p);
        assert(self@ =~= old(self)@.push(p@));
    }

    /// Removes and returns the state at `best_index`, or `None` where the
    /// frontier is empty. Where every waiting state has spent time, no
    /// waiting state ranks above the one returned.
    pub fn pop(&mut self) -> (r: Option<Player>)
        ensures
            match r {
                None => old(self)@.len() == 0 && final(self)@ == old(self)@,
                Some(p) => {
                    &&& old(self)@.len() > 0
                    &&& 0 <= best_index(old(self)@) < old(self)@.len()
                    &&& p@ == old(self)@[best_index(old(self)@)]
                    &&& final(self)@ == old(self)@.remove(best_index(old(self)@))
                    &&& (forall|i: int| 0 <= i < old(self)@.len() ==> (#[trigger] old(self)@[i]).time > 0)
                        ==> (forall|j: int|
                        0 <= j < old(self)@.len() ==> !outranks(#[trigger] old(self)@[j], p@))
                },
            },
    {
        let n = self.items.len();
        if n == 0 {
            return None;
        }
        let mut held: usize = 0;
        let mut i: usize = 1;
        while i < n
            invariant
                n == self.items.len(),
                1 <= i <= n,
                self@ == old(self)@,
                held == best_upto(self@, i as nat),
                held < i,
            decreases n - i,
        {
            if self.items[i].outranks(&self.items[held]) {
                held = i;
            }
            i += 1;
        }
        proof {
            if forall|i: int| 0 <= i < old(self)@.len() ==> (#[trigger] old(self)@[i]).time > 0 {
                lemma_best_is_top(old(self)@, n as nat);
            }
        }
        let p = self.items.remove(held);
        assert(self@ =~= old(self)@.remove(held as int));
        Some(p)
    }
}

} // verus!
