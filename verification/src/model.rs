//! The combat state as a mathematical value, and the rules that advance it:
//! the passage of time and the transition made by one action.

use vstd::prelude::*;
use crate::names::{
    Action, ActionName, BasicCombo, BladeCombo, Confiteor, DivineMight, MP_CAP, MP_INTERVAL,
    MP_PER_INTERVAL,
};
use crate::status::{
    lemma_regen_bounds, lemma_regen_idle, lemma_regen_running, minus_floor, ActionStatus,
};
use crate::table::{action_ok, catalog_ok};

verus! {

/// The state of the combatant at one instant.
pub struct PlayerModel {
    /// Elapsed time.
    pub time: nat,
    /// Resource pool.
    pub mp: nat,
    /// Accumulated score.
    pub damage: nat,
    /// Remaining shared cooldown.
    pub global_cooldown: nat,
    pub basic_combo: BasicCombo,
    pub blade_combo: BladeCombo,
    pub divine_might: DivineMight,
    pub confiteor: Confiteor,
    /// The status of every action.
    pub status: Map<ActionName, ActionStatus>,
}

/// A pool value clamped to the cap.
pub open spec fn capped(mp: nat) -> nat {
    if mp > MP_CAP {
        MP_CAP as nat
    } else {
        mp
    }
}

/// The resource regenerated while elapsed time goes from `before` to
/// `after`: a fixed amount for each interval boundary crossed.
pub open spec fn mp_regen(before: nat, after: nat) -> nat {
    ((after / (MP_INTERVAL as nat) - before / (MP_INTERVAL as nat)) * MP_PER_INTERVAL) as nat
}

/// A score value under the buff: a quarter, dropped to a whole number, five
/// times.
pub open spec fn scaled(damage: nat) -> nat {
    damage / 4 * 5
}

/// The status of an action right after setup: all charges, nothing running.
pub open spec fn ready_status(st: ActionStatus, a: Action) -> ActionStatus {
    ActionStatus { name: st.name, cooldown: 0, duration: 0, charges: a.max_charges, count: 0 }
}

/// The invariant of the charges and the cooldown of one status, for an
/// action described by `a` while the shared cooldown has `gcd` left: the
/// charges are within their maximum, the cooldown is within one recast and
/// runs exactly while a charge is missing, and an action gated by the shared
/// cooldown alone has its charge back when the shared cooldown ends.
pub open spec fn timers_ok(st: ActionStatus, a: Action, gcd: nat) -> bool {
    &&& st.charges <= a.max_charges
    &&& st.cooldown <= a.recast
    &&& st.charges < a.max_charges ==> st.cooldown >= 1
    &&& st.charges == a.max_charges ==> st.cooldown == 0
    &&& !a.cooldown_type.charge_gated() && st.charges == 0 ==> st.cooldown <= gcd
}

/// The invariant of one status: its timers are in order, and no free use is
/// stored without a running effect.
pub open spec fn status_ok(st: ActionStatus, a: Action, gcd: nat) -> bool {
    &&& timers_ok(st, a, gcd)
    &&& st.duration == 0 ==> st.count == 0
}

impl PlayerModel {
    /// The state before any setup: zero time, a full pool, and every action
    /// blank.
    pub open spec fn fresh() -> PlayerModel {
        PlayerModel {
            time: 0,
            mp: MP_CAP as nat,
            damage: 0,
            global_cooldown: 0,
            basic_combo: BasicCombo::Idle,
            blade_combo: BladeCombo::Idle,
            divine_might: DivineMight::Idle,
            confiteor: Confiteor::Idle,
            status: Map::new(|n: ActionName| true, |n: ActionName| ActionStatus::blank()),
        }
    }

    /// This state with every action set up from the catalog.
    pub open spec fn assign(self, cat: Map<ActionName, Action>) -> PlayerModel {
        PlayerModel {
            status: Map::new(
                |n: ActionName| true,
                |n: ActionName| ready_status(self.status[n], cat[n]),
            ),
            ..self
        }
    }

    /// The state a search starts from.
    pub open spec fn initial(cat: Map<ActionName, Action>) -> PlayerModel {
        PlayerModel::fresh().assign(cat)
    }

    /// This state with `mp` added to the pool, clamped to the cap.
    pub open spec fn recover_mp(self, mp: nat) -> PlayerModel {
        PlayerModel { mp: capped(self.mp + mp), ..self }
    }

    /// This state after `t` has passed.
    pub open spec fn tick(self, t: nat, cat: Map<ActionName, Action>) -> PlayerModel {
        PlayerModel {
            time: self.time + t,
            mp: capped(self.mp + mp_regen(self.time, self.time + t)),
            global_cooldown: minus_floor(self.global_cooldown, t),
            status: Map::new(
                |n: ActionName| true,
                |n: ActionName| self.status[n].after(t, cat[n]),
            ),
            ..self
        }
    }

    /// Whether the score buff is active.
    pub open spec fn buffed(self) -> bool {
        self.status[ActionName::FightOrFlight].duration > 0
    }

    /// What a hit of `damage` adds to the score.
    pub open spec fn gain(self, damage: nat) -> nat {
        if self.buffed() {
            scaled(damage)
        } else {
            damage
        }
    }

    /// This state with a hit of `damage` committed to the score.
    pub open spec fn hit(self, damage: nat) -> PlayerModel {
        PlayerModel { damage: self.damage + self.gain(damage), ..self }
    }

    /// The invariant of reachable states: the pool is within its cap and
    /// every status is in order.
    pub open spec fn wf(self, cat: Map<ActionName, Action>) -> bool {
        &&& self.mp <= MP_CAP
        &&& forall|n: ActionName|
            status_ok(#[trigger] self.status[n], cat[n], self.global_cooldown)
    }

    /// Ticking by `a` and then by `b` equals ticking once by `a + b`.
    pub proof fn lemma_tick_split(self, a: nat, b: nat, cat: Map<ActionName, Action>)
        ensures
            self.tick(a, cat).tick(b, cat) == self.tick(a + b, cat),
    {
        let twice = self.tick(a, cat).tick(b, cat);
        let once = self.tick(a + b, cat);
        assert forall|n: ActionName| #[trigger] twice.status[n] == once.status[n] by {
            self.status[n].lemma_after_split(a, b, cat[n]);
        }
        assert(twice.status =~= once.status);
        let d = MP_INTERVAL as nat;
        assert(self.time / d <= (self.time + a) / d <= (self.time + a + b) / d);
        assert(mp_regen(self.time, self.time + a) + mp_regen(self.time + a, self.time + a + b)
            == mp_regen(self.time, self.time + a + b));
    }

    /// Time keeps the invariant, never turns the clock back and leaves the
    /// score alone.
    pub proof fn lemma_tick_wf(self, t: nat, cat: Map<ActionName, Action>)
        requires
            catalog_ok(cat),
            self.wf(cat),
        ensures
            self.tick(t, cat).wf(cat),
            self.tick(t, cat).time >= self.time,
            self.tick(t, cat).damage == self.damage,
    {
        let next = self.tick(t, cat);
        assert forall|n: ActionName|
            status_ok(#[trigger] next.status[n], cat[n], next.global_cooldown) by {
            lemma_status_after_ok(self.status[n], cat[n], self.global_cooldown, t);
        }
    }

    /// The state a search starts from satisfies the invariant.
    pub proof fn lemma_initial_wf(cat: Map<ActionName, Action>)
        requires
            catalog_ok(cat),
        ensures
            PlayerModel::initial(cat).wf(cat),
    {
    }
}

/// The passage of time keeps the timers of a status in order and drops the
/// free uses of an effect that has ended.
pub proof fn lemma_status_after_ok(st: ActionStatus, a: Action, gcd: nat, t: nat)
    requires
        action_ok(a),
        timers_ok(st, a, gcd),
    ensures
        status_ok(st.after(t, a), a, minus_floor(gcd, t)),
        st.after(t, a).charges >= st.charges,
{
    let k = st.charges as nat;
    let c = st.cooldown as nat;
    let max = a.max_charges as nat;
    let recast = a.recast as nat;
    lemma_regen_bounds(k, c, t, max, recast);
    lemma_regen_running(k, c, t, max, recast);
    if k < max && crate::status::regen(k, c, t, max, recast).0 == k {
        lemma_regen_idle(k, c, t, max, recast);
    }
}

} // verus!
