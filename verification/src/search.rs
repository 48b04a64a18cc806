//! The best-first search over the states that the transitions reach.

use vstd::prelude::*;
use crate::dedup::{Dedup, DedupModel};
use crate::fingerprint::{calculate_hash, fingerprint};
use crate::frontier::{best_index, Frontier};
use crate::model::PlayerModel;
use crate::names::{Action, ActionName, ACTION_COUNT};
use crate::player::Player;
use crate::rules::most_gain;
use crate::table::{catalog_ok, Catalog};

verus! {

/// The horizon of `search`, in milliseconds.
pub const MAX_TIME: u32 = 10000;

/// The state of a search as a mathematical value.
pub struct SearchModel {
    /// The states that wait to be expanded.
    pub frontier: Seq<PlayerModel>,
    /// The deduplication table.
    pub table: DedupModel,
    /// The highest score among the states expanded so far.
    pub top_score: u32,
    /// The fingerprint of the state that had it.
    pub top_print: u64,
}

/// What a search found.
pub struct SearchOutcome {
    /// The highest score among the states expanded.
    pub best_score: u32,
    /// The fingerprint of the state that had it.
    pub best_print: u64,
    /// The actions that the table records on the way to that state.
    pub actions: Vec<ActionName>,
    /// Number of fingerprints seen.
    pub seen: usize,
}

impl SearchModel {
    /// The search before the first expansion: the initial state waits, and
    /// the table records it as the root with score zero.
    pub open spec fn start(cat: Map<ActionName, Action>) -> SearchModel {
        let root = PlayerModel::initial(cat);
        SearchModel {
            frontier: seq![root],
            table: DedupModel::empty().offer(fingerprint(root), 0, 0, ActionName::NoAction),
            top_score: 0,
            top_print: fingerprint(root),
        }
    }

    /// The search after successor `cand` of the state with fingerprint
    /// `from` was generated by `action`: it is offered to the table, and
    /// waits for expansion where its fingerprint is new.
    pub open spec fn enqueue(self, cand: PlayerModel, from: u64, action: ActionName) -> SearchModel {
        let print = fingerprint(cand);
        SearchModel {
            frontier: if self.table.is_new(print) {
                self.frontier.push(cand)
            } else {
                self.frontier
            },
            table: self.table.offer(print, cand.damage as u32, from, action),
            ..self
        }
    }

    /// The search after `action` was tried on state `p` with fingerprint
    /// `from`. A transition that fails, and one whose score might not fit 32
    /// bits, generates nothing.
    #[verifier::opaque]
    pub open spec fn attempt(
        self,
        p: PlayerModel,
        from: u64,
        action: ActionName,
        cat: Map<ActionName, Action>,
        horizon: nat,
    ) -> SearchModel {
        if p.damage + most_gain(cat[action]) > u32::MAX {
            self
        } else {
            match p.apply(action, cat, horizon) {
                Ok(next) => self.enqueue(next, from, action),
                Err(_) => self,
            }
        }
    }

    /// The search after the actions in slots 1 to `upto` were tried on `p`,
    /// in slot order.
    pub open spec fn expand(
        self,
        p: PlayerModel,
        from: u64,
        cat: Map<ActionName, Action>,
        horizon: nat,
        upto: nat,
    ) -> SearchModel
        decreases upto,
    {
        if upto == 0 {
            self
        } else {
            self.expand(p, from, cat, horizon, (upto - 1) as nat).attempt(
                p,
                from,
                ActionName::at_slot(upto as u8),
                cat,
                horizon,
            )
        }
    }

    /// The state that is expanded next: the highest-ranking state of the
    /// frontier, with the best score that the table records for its
    /// fingerprint.
    pub open spec fn chosen(self) -> PlayerModel {
        let raw = self.frontier[best_index(self.frontier)];
        PlayerModel { damage: self.table.best[fingerprint(raw)] as nat, ..raw }
    }

    /// The search after the chosen state has left the frontier: it takes
    /// the top score where its score is higher.
    pub open spec fn popped(self) -> SearchModel {
        let p = self.chosen();
        let higher = p.damage > self.top_score;
        SearchModel {
            frontier: self.frontier.remove(best_index(self.frontier)),
            top_score: if higher {
                p.damage as u32
            } else {
                self.top_score
            },
            top_print: if higher {
                fingerprint(p)
            } else {
                self.top_print
            },
            ..self
        }
    }

    /// One expansion: the chosen state leaves the frontier, and every action
    /// is tried on it. A search with an empty frontier stays as it is.
    pub open spec fn step(self, cat: Map<ActionName, Action>, horizon: nat) -> SearchModel {
        if self.frontier.len() == 0 {
            self
        } else {
            self.popped().expand(
                self.chosen(),
                fingerprint(self.chosen()),
                cat,
                horizon,
                (ACTION_COUNT - 1) as nat,
            )
        }
    }

    /// The search after `n` expansions.
    pub open spec fn run(cat: Map<ActionName, Action>, horizon: nat, n: nat) -> SearchModel
        decreases n,
    {
        if n == 0 {
            SearchModel::start(cat)
        } else {
            SearchModel::run(cat, horizon, (n - 1) as nat).step(cat, horizon)
        }
    }

    /// Whether the search is over.
    pub open spec fn done(self) -> bool {
        self.frontier.len() == 0
    }

    /// The actions that the table records on the way to the top state.
    pub open spec fn best_route(self) -> Seq<ActionName> {
        self.table.route(self.top_print)
    }

    /// What every search state satisfies: the table is well-formed, and each
    /// waiting state satisfies the state invariant and has its fingerprint
    /// in the table.
    pub open spec fn wf(self, cat: Map<ActionName, Action>) -> bool {
        &&& self.table.wf()
        &&& forall|i: int|
            0 <= i < self.frontier.len() ==> {
                &&& (#[trigger] self.frontier[i]).wf(cat)
                &&& !self.table.is_new(fingerprint(self.frontier[i]))
            }
    }

    /// How far the search is from its end at most: the fingerprints that the
    /// table can still take, then the states that wait.
    pub open spec fn slack(self) -> (int, nat) {
        (usize::MAX - self.table.best.dom().len(), self.frontier.len())
    }

    /// Whether every waiting state lies within the horizon.
    pub open spec fn within(self, horizon: nat) -> bool {
        forall|i: int| 0 <= i < self.frontier.len() ==> (#[trigger] self.frontier[i]).time <= horizon
    }

    /// A generated state that satisfies the state invariant within the
    /// horizon leaves the search well-formed and within the horizon.
    pub proof fn lemma_enqueue_keeps(
        self,
        cand: PlayerModel,
        from: u64,
        action: ActionName,
        cat: Map<ActionName, Action>,
        horizon: nat,
    )
        requires
            self.wf(cat),
            self.within(horizon),
            cand.wf(cat),
            cand.time <= horizon,
        ensures
            self.enqueue(cand, from, action).wf(cat),
            self.enqueue(cand, from, action).within(horizon),
    {
        let print = fingerprint(cand);
        let after = self.enqueue(cand, from, action);
        self.table.lemma_offer_wf(print, cand.damage as u32, from, action);
        assert forall|i: int| 0 <= i < after.frontier.len() implies {
            &&& (#[trigger] after.frontier[i]).wf(cat)
            &&& !after.table.is_new(fingerprint(after.frontier[i]))
            &&& after.frontier[i].time <= horizon
        } by {
            if i < self.frontier.len() {
                assert(after.frontier[i] == self.frontier[i]);
                assert(!self.table.is_new(fingerprint(self.frontier[i])));
            } else {
                assert(after.frontier[i] == cand);
            }
        }
    }

    /// Trying actions on a state that satisfies the state invariant leaves
    /// the search well-formed and within the horizon: a successor beyond the
    /// horizon is never generated.
    pub proof fn lemma_expand_keeps(
        self,
        p: PlayerModel,
        from: u64,
        cat: Map<ActionName, Action>,
        horizon: nat,
        upto: nat,
    )
        requires
            catalog_ok(cat),
            self.wf(cat),
            self.within(horizon),
            p.wf(cat),
        ensures
            self.expand(p, from, cat, horizon, upto).wf(cat),
            self.expand(p, from, cat, horizon, upto).within(horizon),
        decreases upto,
    {
        if upto > 0 {
            self.lemma_expand_keeps(p, from, cat, horizon, (upto - 1) as nat);
            let before = self.expand(p, from, cat, horizon, (upto - 1) as nat);
            let action = ActionName::at_slot(upto as u8);
            reveal(SearchModel::attempt);
            if p.damage + most_gain(cat[action]) <= u32::MAX && p.apply(action, cat, horizon) is Ok {
                p.lemma_apply_keeps(action, cat, horizon);
                before.lemma_enqueue_keeps(
                    p.apply(action, cat, horizon)->Ok_0,
                    from,
                    action,
                    cat,
                    horizon,
                );
            }
        }
    }

    /// One expansion leaves the search well-formed and within the horizon.
    pub proof fn lemma_step_keeps(self, cat: Map<ActionName, Action>, horizon: nat)
        requires
            catalog_ok(cat),
            self.wf(cat),
            self.within(horizon),
        ensures
            self.step(cat, horizon).wf(cat),
            self.step(cat, horizon).within(horizon),
    {
        if self.frontier.len() > 0 {
            crate::frontier::lemma_best_upto(self.frontier, self.frontier.len());
            let at = best_index(self.frontier);
            let raw = self.frontier[at];
            assert(raw.wf(cat));
            let p = self.chosen();
            assert(p.wf(cat));
            let after = self.popped();
            assert forall|i: int| 0 <= i < after.frontier.len() implies {
                &&& (#[trigger] after.frontier[i]).wf(cat)
                &&& !after.table.is_new(fingerprint(after.frontier[i]))
                &&& after.frontier[i].time <= horizon
            } by {
                if i < at {
                    assert(after.frontier[i] == self.frontier[i]);
                } else {
                    assert(after.frontier[i] == self.frontier[i + 1]);
                }
            }
            after.lemma_expand_keeps(p, fingerprint(p), cat, horizon, (ACTION_COUNT - 1) as nat);
        }
    }

    /// At every point of a search the table is well-formed, and every
    /// waiting state satisfies the state invariant, has its fingerprint in
    /// the table and lies within the horizon.
    pub proof fn lemma_run_keeps(cat: Map<ActionName, Action>, horizon: nat, n: nat)
        requires
            catalog_ok(cat),
        ensures
            SearchModel::run(cat, horizon, n).wf(cat),
            SearchModel::run(cat, horizon, n).within(horizon),
        decreases n,
    {
        if n == 0 {
            let root = PlayerModel::initial(cat);
            PlayerModel::lemma_initial_wf(cat);
            DedupModel::empty().lemma_offer_wf(fingerprint(root), 0, 0, ActionName::NoAction);
        } else {
            SearchModel::lemma_run_keeps(cat, horizon, (n - 1) as nat);
            SearchModel::run(cat, horizon, (n - 1) as nat).lemma_step_keeps(cat, horizon);
        }
    }

    /// Whether the top fingerprint is in the table with a recorded score
    /// that is no lower than the top score.
    pub open spec fn top_ok(self) -> bool {
        &&& !self.table.is_new(self.top_print)
        &&& self.table.best[self.top_print] >= self.top_score
    }

    /// Trying actions moves neither the top score nor the top fingerprint,
    /// keeps every fingerprint of the table and lowers no recorded score.
    pub proof fn lemma_expand_grows(
        self,
        p: PlayerModel,
        from: u64,
        cat: Map<ActionName, Action>,
        horizon: nat,
        upto: nat,
        known: u64,
    )
        requires
            !self.table.is_new(known),
        ensures
            self.expand(p, from, cat, horizon, upto).top_score == self.top_score,
            self.expand(p, from, cat, horizon, upto).top_print == self.top_print,
            !self.expand(p, from, cat, horizon, upto).table.is_new(known),
            self.expand(p, from, cat, horizon, upto).table.best[known] >= self.table.best[known],
        decreases upto,
    {
        if upto > 0 {
            self.lemma_expand_grows(p, from, cat, horizon, (upto - 1) as nat, known);
            reveal(SearchModel::attempt);
        }
    }

    /// At every point of a search the top fingerprint is in the table, and
    /// its recorded score is no lower than the top score.
    pub proof fn lemma_run_top(cat: Map<ActionName, Action>, horizon: nat, n: nat)
        requires
            catalog_ok(cat),
        ensures
            SearchModel::run(cat, horizon, n).top_ok(),
        decreases n,
    {
        if n > 0 {
            let before = SearchModel::run(cat, horizon, (n - 1) as nat);
            SearchModel::lemma_run_top(cat, horizon, (n - 1) as nat);
            SearchModel::lemma_run_keeps(cat, horizon, (n - 1) as nat);
            if before.frontier.len() > 0 {
                crate::frontier::lemma_best_upto(before.frontier, before.frontier.len());
                let raw = before.frontier[best_index(before.frontier)];
                assert(!before.table.is_new(fingerprint(raw)));
                let p = before.chosen();
                crate::fingerprint::lemma_fingerprint_ignores_score(raw, p);
                let after = before.popped();
                after.lemma_expand_grows(
                    p,
                    fingerprint(p),
                    cat,
                    horizon,
                    (ACTION_COUNT - 1) as nat,
                    after.top_print,
                );
            }
        }
    }

    /// A search that is over stays over: further expansions change nothing.
    pub proof fn lemma_done_is_final(cat: Map<ActionName, Action>, horizon: nat, n: nat, m: nat)
        requires
            SearchModel::run(cat, horizon, n).done(),
            n <= m,
        ensures
            SearchModel::run(cat, horizon, m) == SearchModel::run(cat, horizon, n),
        decreases m,
    {
        if n < m {
            SearchModel::lemma_done_is_final(cat, horizon, n, (m - 1) as nat);
        }
    }
}

/// The outcome of a search does not depend on how many expansions are
/// counted once it is over: any two finished points of one search are the
/// same.
pub proof fn lemma_outcome_unique(cat: Map<ActionName, Action>, horizon: nat, n: nat, m: nat)
    requires
        SearchModel::run(cat, horizon, n).done(),
        SearchModel::run(cat, horizon, m).done(),
    ensures
        SearchModel::run(cat, horizon, n) == SearchModel::run(cat, horizon, m),
{
    if n <= m {
        SearchModel::lemma_done_is_final(cat, horizon, n, m);
    } else {
        SearchModel::lemma_done_is_final(cat, horizon, m, n);
    }
}

/// A search in progress, for one catalog and one horizon.
pub struct Search<'a> {
    actions_map: &'a Catalog,
    horizon: u32,
    frontier: Frontier,
    table: Dedup,
    ans: u32,
    best_h: u64,
}

impl<'a> Search<'a> {
    /// The search as a mathematical value.
    pub closed spec fn view(&self) -> SearchModel {
        SearchModel {
            frontier: self.frontier@,
            table: self.table@,
            top_score: self.ans,
            top_print: self.best_h,
        }
    }

    /// The catalog that the search works on.
    pub closed spec fn catalog(&self) -> Map<ActionName, Action> {
        self.actions_map@
    }

    /// The horizon of the search.
    pub closed spec fn horizon(&self) -> nat {
        self.horizon as nat
    }

    /// What holds of a search between any two of its operations.
    pub closed spec fn inv(&self) -> bool {
        &&& catalog_ok(self.actions_map@)
        &&& self@.wf(self.actions_map@)
    }

    /// A search in order works on a usable catalog and is well-formed.
    pub proof fn lemma_inv(&self)
        requires
            self.inv(),
        ensures
            catalog_ok(self.catalog()),
            self@.wf(self.catalog()),
    {
    }

    /// Starts a search from the initial state of the catalog.
    pub fn start(actions_map: &'a Catalog, horizon: u32) -> (r: Search<'a>)
        requires
            catalog_ok(actions_map@),
        ensures
            r@ == SearchModel::start(actions_map@),
            r.catalog() == actions_map@,
            r.horizon() == horizon,
            r.inv(),
    {
        let mut player = Player::default();
        player.assign_actions(actions_map);
        let h = calculate_hash(&player);
        let mut table = Dedup::new();
        let mut frontier = Frontier::new();
        table.offer(h, player.damage(), 0, ActionName::NoAction);
        proof {
            DedupModel::empty().lemma_offer_wf(h, 0, 0, ActionName::NoAction);
            PlayerModel::lemma_initial_wf(actions_map@);
        }
        frontier.push(player);
        let r = Search { actions_map, horizon, frontier, table, ans: 0, best_h: h };
        assert(r@.frontier =~= seq![PlayerModel::initial(actions_map@)]);
        r
    }

    /// Whether no state waits for expansion.
    pub fn is_done(&self) -> (b: bool)
        ensures
            b == self@.done(),
    {
        self.frontier.is_empty()
    }

    /// The highest score among the states expanded so far.
    pub fn best_score(&self) -> (r: u32)
        ensures
            r == self@.top_score,
    {
        self.ans
    }

    /// The fingerprint of the state that had the highest score.
    pub fn best_print(&self) -> (r: u64)
        ensures
            r == self@.top_print,
    {
        self.best_h
    }

    /// Number of states that wait for expansion.
    pub fn waiting(&self) -> (n: usize)
        ensures
            n == self@.frontier.len(),
    {
        self.frontier.len()
    }

    /// Number of fingerprints seen.
    pub fn seen(&self) -> (n: usize)
        ensures
            n == self@.table.best.dom().len(),
    {
        self.table.len()
    }

    /// The best score recorded for the fingerprint `print`, if it was seen.
    pub fn recorded(&self, print: u64) -> (r: Option<u32>)
        ensures
            r == (if self@.table.is_new(print) {
                None
            } else {
                Some(self@.table.best[print])
            }),
    {
        self.table.best(print)
    }

    /// The actions that the table records on the way to the top state.
    pub fn best_route(&self) -> (r: Vec<ActionName>)
        ensures
            r@ == self@.best_route(),
    {
        self.table.route(self.best_h)
    }

    /// Offers successor `next` of the state with fingerprint `h` to the
    /// table, and lets it wait where its fingerprint is new.
    fn enqueue(&mut self, next: Player, h: u64, name: ActionName)
        requires
            old(self).inv(),
            next@.wf(old(self).catalog()),
        ensures
            final(self)@ == old(self)@.enqueue(next@, h, name),
            final(self).inv(),
            final(self).catalog() == old(self).catalog(),
            final(self).horizon() == old(self).horizon(),
            final(self)@.table.best.dom().len() >= old(self)@.table.best.dom().len(),
            final(self)@.frontier.len() - final(self)@.table.best.dom().len() == old(
                self,
            )@.frontier.len() - old(self)@.table.best.dom().len(),
    {
        let ghost cat = self.catalog();
        let print = calculate_hash(&next);
        proof {
            next.lemma_view_fits();
            old(self)@.table.lemma_offer_wf(print, next@.damage as u32, h, name);
        }
        let ghost cand = next@;
        let fresh = self.table.offer(print, next.damage(), h, name);
        if fresh {
            self.frontier.push(next);
        }
        proof {
            let before = old(self)@;
            let after = self@;
            assert(after.table == before.table.offer(print, cand.damage as u32, h, name));
            assert(after.table.best.dom() == before.table.best.dom().insert(print));
            assert forall|i: int| 0 <= i < after.frontier.len() implies {
                &&& (#[trigger] after.frontier[i]).wf(cat)
                &&& !after.table.is_new(fingerprint(after.frontier[i]))
            } by {
                if i < before.frontier.len() {
                    assert(after.frontier[i] == before.frontier[i]);
                    assert(!before.table.is_new(fingerprint(before.frontier[i])));
                } else {
                    assert(after.frontier[i] == cand);
                }
            }
        }
    }

    /// Tries one action on `player`, whose fingerprint is `h`.
    fn attempt(&mut self, player: &Player, h: u64, name: ActionName)
        requires
            old(self).inv(),
            player@.wf(old(self).catalog()),
        ensures
            final(self)@ == old(self)@.attempt(
                player@,
                h,
                name,
                old(self).catalog(),
                old(self).horizon(),
            ),
            final(self).inv(),
            final(self).catalog() == old(self).catalog(),
            final(self).horizon() == old(self).horizon(),
            final(self)@.table.best.dom().len() >= old(self)@.table.best.dom().len(),
            final(self)@.frontier.len() - final(self)@.table.best.dom().len() == old(
                self,
            )@.frontier.len() - old(self)@.table.best.dom().len(),
    {
        reveal(SearchModel::attempt);
        let actions_map = self.actions_map;
        let action = actions_map.get(name);
        if player.has_room_for(&action) {
            match player.apply_action(&name, actions_map, self.horizon) {
                Ok(next) => {
                    self.enqueue(next, h, name);
                },
                Err(_) => {},
            }
        }
    }

    /// Takes the chosen state out of the frontier. Returns it with its
    /// fingerprint, or `None` where no state waits.
    fn take(&mut self) -> (r: Option<(Player, u64)>)
        requires
            old(self).inv(),
        ensures
            final(self).catalog() == old(self).catalog(),
            final(self).horizon() == old(self).horizon(),
            match r {
                None => old(self)@.done() && final(self)@ == old(self)@ && final(self).inv(),
                Some(pair) => {
                    &&& !old(self)@.done()
                    &&& pair.0@ == old(self)@.chosen()
                    &&& pair.1 == fingerprint(pair.0@)
                    &&& pair.0@.wf(old(self).catalog())
                    &&& final(self)@ == old(self)@.popped()
                    &&& final(self).inv()
                    &&& final(self)@.table == old(self)@.table
                    &&& final(self)@.frontier.len() == old(self)@.frontier.len() - 1
                },
            },
    {
        let ghost cat = self.catalog();
        let player = match self.frontier.pop() {
            None => {
                return None;
            },
            Some(p) => p,
        };
        let ghost raw = player@;
        let ghost at = best_index(old(self)@.frontier);
        assert(raw == old(self)@.frontier[at]);
        assert(raw.wf(cat) && !old(self)@.table.is_new(fingerprint(raw)));
        let h = calculate_hash(&player);
        let score = match self.table.best(h) {
            Some(score) => score,
            // Every waiting state has its fingerprint in the table.
            None => {
                return None;
            },
        };
        let player = player.with_damage(score);
        proof {
            crate::fingerprint::lemma_fingerprint_ignores_score(raw, player@);
        }
        if player.damage() > self.ans {
            self.ans = player.damage();
            self.best_h = h;
        }
        proof {
            let after = self@;
            assert forall|i: int| 0 <= i < after.frontier.len() implies {
                &&& (#[trigger] after.frontier[i]).wf(cat)
                &&& !after.table.is_new(fingerprint(after.frontier[i]))
            } by {
                if i < at {
                    assert(after.frontier[i] == old(self)@.frontier[i]);
                } else {
                    assert(after.frontier[i] == old(self)@.frontier[i + 1]);
                }
            }
        }
        Some((player, h))
    }

    /// Tries every action on `player`, whose fingerprint is `h`.
    fn expand(&mut self, player: &Player, h: u64)
        requires
            old(self).inv(),
            player@.wf(old(self).catalog()),
        ensures
            final(self)@ == old(self)@.expand(
                player@,
                h,
                old(self).catalog(),
                old(self).horizon(),
                (ACTION_COUNT - 1) as nat,
            ),
            final(self).inv(),
            final(self).catalog() == old(self).catalog(),
            final(self).horizon() == old(self).horizon(),
            final(self)@.table.best.dom().len() >= old(self)@.table.best.dom().len(),
            final(self)@.frontier.len() - final(self)@.table.best.dom().len() == old(
                self,
            )@.frontier.len() - old(self)@.table.best.dom().len(),
    {
        let mut i: u8 = 1;
        while i < ACTION_COUNT
            invariant
                1 <= i <= ACTION_COUNT,
                self.inv(),
                self.catalog() == old(self).catalog(),
                self.horizon() == old(self).horizon(),
                player@.wf(self.catalog()),
                self@ == old(self)@.expand(
                    player@,
                    h,
                    self.catalog(),
                    self.horizon(),
                    (i - 1) as nat,
                ),
                self@.table.best.dom().len() >= old(self)@.table.best.dom().len(),
                self@.frontier.len() - self@.table.best.dom().len() == old(self)@.frontier.len()
                    - old(self)@.table.best.dom().len(),
            decreases ACTION_COUNT - i,
        {
            let name = ActionName::from_index(i).unwrap();
            self.attempt(player, h, name);
            i += 1;
        }
    }

    /// Expands one state: the highest-ranking state of the frontier leaves
    /// it, and every action is tried on it. Returns whether there was a
    /// state to expand.
    pub fn step(&mut self) -> (worked: bool)
        requires
            old(self).inv(),
        ensures
            final(self)@ == old(self)@.step(old(self).catalog(), old(self).horizon()),
            final(self).inv(),
            final(self).catalog() == old(self).catalog(),
            final(self).horizon() == old(self).horizon(),
            worked == !old(self)@.done(),
            final(self)@.table.best.dom().len() >= old(self)@.table.best.dom().len(),
            worked ==> final(self)@.frontier.len() - final(self)@.table.best.dom().len() == old(
                self,
            )@.frontier.len() - 1 - old(self)@.table.best.dom().len(),
    {
        match self.take() {
            None => false,
            Some(pair) => {
                self.expand(&pair.0, pair.1);
                true
            },
        }
    }
}

/// Searches within `horizon` for the highest-scoring state that the
/// transitions reach from the initial state. The search runs until no state
/// waits for expansion; the outcome is that of the search after as many
/// expansions as that takes.
pub fn search_within(actions_map: &Catalog, horizon: u32) -> (r: SearchOutcome)
    requires
        catalog_ok(actions_map@),
    ensures
        exists|n: nat|
            {
                &&& (#[trigger] SearchModel::run(actions_map@, horizon as nat, n)).done()
                &&& r.best_score == SearchModel::run(actions_map@, horizon as nat, n).top_score
                &&& r.best_print == SearchModel::run(actions_map@, horizon as nat, n).top_print
                &&& r.actions@ == SearchModel::run(actions_map@, horizon as nat, n).best_route()
                &&& r.seen == SearchModel::run(actions_map@, horizon as nat, n).table.best.dom().len()
            },
{
    let mut search = Search::start(actions_map, horizon);
    let ghost mut n: nat = 0;
    let mut seen = search.seen();
    while !search.is_done()
        invariant
            search.inv(),
            search.catalog() == actions_map@,
            search.horizon() == horizon,
            search@ == SearchModel::run(actions_map@, horizon as nat, n),
            seen == search@.table.best.dom().len(),
        decreases search@.slack().0, search@.slack().1,
    {
        search.step();
        seen = search.seen();
        proof {
            n = n + 1;
        }
    }
    SearchOutcome {
        best_score: search.best_score(),
        best_print: search.best_print(),
        actions: search.best_route(),
        seen,
    }
}

/// Searches within `MAX_TIME`.
pub fn search(actions_map: &Catalog) -> (r: SearchOutcome)
    requires
        catalog_ok(actions_map@),
    ensures
        exists|n: nat|
            {
                &&& (#[trigger] SearchModel::run(actions_map@, MAX_TIME as nat, n)).done()
                &&& r.best_score == SearchModel::run(actions_map@, MAX_TIME as nat, n).top_score
                &&& r.best_print == SearchModel::run(actions_map@, MAX_TIME as nat, n).top_print
                &&& r.actions@ == SearchModel::run(actions_map@, MAX_TIME as nat, n).best_route()
                &&& r.seen == SearchModel::run(actions_map@, MAX_TIME as nat, n).table.best.dom().len()
            },
{
    search_within(actions_map, MAX_TIME)
}

} // verus!
