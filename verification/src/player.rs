//! The combat state as a value that programs hold, with the operations that
//! advance it. Each operation is tied to the rule of the same name on
//! `PlayerModel`.

use vstd::prelude::*;
use crate::effects::{
    cast_time, lemma_table_agrees, picked, rule_for, Branch, Moves, Needs, Pick,
};
use crate::model::{ready_status, status_ok, PlayerModel};
use crate::names::{
    Action, ActionName, BasicCombo, BladeCombo, Confiteor, CooldownType, DivineMight,
    ACTION_COUNT, ANIMATION_LOCK, GLOBAL_COOLDOWN, MP_CAP, MP_INTERVAL, MP_PER_INTERVAL,
};
use crate::rules::{most_gain, ActionApplyError, Resolved};
use crate::status::{sub_to_zero, ActionStatus};
use crate::table::{catalog_ok, Catalog, StatusTable};

verus! {

/// The score value of `action` that `pick` names.
fn value_of(action: &Action, which: Pick) -> (r: u32)
    ensures
        r == picked(*action, which),
{
    match which {
        Pick::Base => action.potency,
        Pick::Secondary => action.secondary_potency,
        Pick::Tertiary => action.tertiary_potency,
    }
}

/// The cast time of a use of `action`.
fn cast_of(action: &Action, instant: bool) -> (r: u32)
    ensures
        r == cast_time(*action, instant),
{
    if instant {
        ANIMATION_LOCK
    } else {
        action.cast
    }
}

/// The state of the combatant at one instant.
#[derive(Debug, PartialEq, Eq)]
pub struct Player {
    time: u32,
    mp: u32,
    damage: u32,
    global_cooldown: u32,
    basic_combo: BasicCombo,
    blade_combo: BladeCombo,
    divine_might: DivineMight,
    confiteor: Confiteor,
    action_status: StatusTable,
}

impl Player {
    /// The state as a mathematical value.
    pub closed spec fn view(&self) -> PlayerModel {
        PlayerModel {
            time: self.time as nat,
            mp: self.mp as nat,
            damage: self.damage as nat,
            global_cooldown: self.global_cooldown as nat,
            basic_combo: self.basic_combo,
            blade_combo: self.blade_combo,
            divine_might: self.divine_might,
            confiteor: self.confiteor,
            status: self.action_status@,
        }
    }

    /// Whether two states agree on everything but the statuses.
    spec fn same_scalars(&self, other: &Player) -> bool {
        &&& self.time == other.time
        &&& self.mp == other.mp
        &&& self.damage == other.damage
        &&& self.global_cooldown == other.global_cooldown
        &&& self.basic_combo == other.basic_combo
        &&& self.blade_combo == other.blade_combo
        &&& self.divine_might == other.divine_might
        &&& self.confiteor == other.confiteor
    }

    /// The numbers of a state fit the machine's 32 bits.
    pub proof fn lemma_view_fits(&self)
        ensures
            self@.time <= u32::MAX,
            self@.mp <= u32::MAX,
            self@.damage <= u32::MAX,
            self@.global_cooldown <= u32::MAX,
    {
    }

    /// Elapsed time.
    pub fn time(&self) -> (r: u32)
        ensures
            r == self@.time,
    {
        self.time
    }

    /// Resource pool.
    pub fn mp(&self) -> (r: u32)
        ensures
            r == self@.mp,
    {
        self.mp
    }

    /// Accumulated score.
    pub fn damage(&self) -> (r: u32)
        ensures
            r == self@.damage,
    {
        self.damage
    }

    /// Remaining shared cooldown.
    pub fn global_cooldown(&self) -> (r: u32)
        ensures
            r == self@.global_cooldown,
    {
        self.global_cooldown
    }

    /// Stage of the basic combo.
    pub fn basic_combo(&self) -> (r: BasicCombo)
        ensures
            r == self@.basic_combo,
    {
        self.basic_combo
    }

    /// Stage of the blade chain.
    pub fn blade_combo(&self) -> (r: BladeCombo)
        ensures
            r == self@.blade_combo,
    {
        self.blade_combo
    }

    /// Whether the next Holy Spirit is empowered.
    pub fn divine_might(&self) -> (r: DivineMight)
        ensures
            r == self@.divine_might,
    {
        self.divine_might
    }

    /// Whether Confiteor may be used.
    pub fn confiteor(&self) -> (r: Confiteor)
        ensures
            r == self@.confiteor,
    {
        self.confiteor
    }

    /// The status of `name`.
    pub fn status(&self, name: ActionName) -> (r: ActionStatus)
        ensures
            r == self@.status[name],
    {
        self.action_status.get(name)
    }

    /// This state with the score replaced.
    pub fn with_damage(self, damage: u32) -> (r: Player)
        ensures
            r@ == (PlayerModel { damage: damage as nat, ..self@ }),
    {
        let mut r = self;
        r.damage = damage;
        r
    }

    /// Sets every action up from the catalog: all charges, nothing running.
    pub fn assign_actions(&mut self, actions_map: &Catalog)
        ensures
            final(self)@ == old(self)@.assign(actions_map@),
    {
        let ghost before = old(self).action_status@;
        let mut i: u8 = 0;
        while i < ACTION_COUNT
            invariant
                i <= ACTION_COUNT,
                self.same_scalars(old(self)),
                forall|n: ActionName|
                    n.slot() < i ==> #[trigger] self.action_status@[n] == ready_status(
                        before[n],
                        actions_map@[n],
                    ),
                forall|n: ActionName| n.slot() >= i ==> #[trigger] self.action_status@[n] == before[n],
            decreases ACTION_COUNT - i,
        {
            let name = ActionName::from_index(i).unwrap();
            proof {
                ActionName::lemma_at_slot(i);
            }
            let action = actions_map.get(name);
            let mut st = self.action_status.get(name);
            st.cooldown = 0;
            st.duration = 0;
            st.charges = action.max_charges;
            st.count = 0;
            self.action_status.set(name, st);
            assert forall|n: ActionName| n.slot() >= i + 1 implies #[trigger] self.action_status@[n]
                == before[n] by {
                n.lemma_slots();
            }
            i += 1;
        }
        assert(self.action_status@ =~= old(self)@.assign(actions_map@).status);
    }

    /// Adds `mp` to the pool, clamped to the cap.
    pub fn recover_mp(&mut self, mp: u32)
        requires
            old(self)@.mp <= MP_CAP,
        ensures
            final(self)@ == old(self)@.recover_mp(mp as nat),
    {
        if mp >= MP_CAP - self.mp {
            self.mp = MP_CAP;
        } else {
            self.mp += mp;
        }
    }

    /// Lets `time` pass: the pool regenerates at interval boundaries, and
    /// the shared cooldown and every status advance.
    pub fn tick(&mut self, time: u32, actions_map: &Catalog)
        requires
            old(self)@.time + time <= u32::MAX,
            old(self)@.mp <= MP_CAP,
        ensures
            final(self)@ == old(self)@.tick(time as nat, actions_map@),
    {
        let ghost before = old(self).action_status@;
        let ghost goal = old(self)@.tick(time as nat, actions_map@);
        let new_time = self.time + time;
        self.recover_mp(((new_time / MP_INTERVAL) - (self.time / MP_INTERVAL)) * MP_PER_INTERVAL);
        self.time = new_time;
        self.global_cooldown = sub_to_zero(self.global_cooldown, time);
        assert(self.mp == goal.mp);
        let mut i: u8 = 0;
        while i < ACTION_COUNT
            invariant
                i <= ACTION_COUNT,
                self.time == goal.time,
                self.mp == goal.mp,
                self.global_cooldown == goal.global_cooldown,
                self.damage == old(self).damage,
                self.basic_combo == old(self).basic_combo,
                self.blade_combo == old(self).blade_combo,
                self.divine_might == old(self).divine_might,
                self.confiteor == old(self).confiteor,
                forall|n: ActionName|
                    n.slot() < i ==> #[trigger] self.action_status@[n] == before[n].after(
                        time as nat,
                        actions_map@[n],
                    ),
                forall|n: ActionName| n.slot() >= i ==> #[trigger] self.action_status@[n] == before[n],
            decreases ACTION_COUNT - i,
        {
            let name = ActionName::from_index(i).unwrap();
            proof {
                ActionName::lemma_at_slot(i);
            }
            let action = actions_map.get(name);
            let mut st = self.action_status.get(name);
            st.tick(time, &action);
            self.action_status.set(name, st);
            assert forall|n: ActionName| n.slot() >= i + 1 implies #[trigger] self.action_status@[n]
                == before[n] by {
                n.lemma_slots();
            }
            i += 1;
        }
        assert(self.action_status@ =~= goal.status);
    }

    /// Commits a hit of `damage` to the score, scaled up while the buff is
    /// active.
    pub fn hit(&mut self, damage: u32)
        requires
            old(self)@.damage + old(self)@.gain(damage as nat) <= u32::MAX,
        ensures
            final(self)@ == old(self)@.hit(damage as nat),
    {
        let buff = self.action_status.get(ActionName::FightOrFlight);
        self.damage += if buff.duration > 0 {
            damage / 4 * 5
        } else {
            damage
        };
    }

    /// Whether the score has room for any one use of `action`.
    pub fn has_room_for(&self, action: &Action) -> (b: bool)
        ensures
            b == (self@.damage + most_gain(*action) <= u32::MAX),
    {
        let p = if action.potency >= action.secondary_potency {
            action.potency
        } else {
            action.secondary_potency
        };
        let q = if p >= action.tertiary_potency {
            p
        } else {
            action.tertiary_potency
        };
        let most: u64 = q as u64 + (q / 4) as u64;
        self.damage as u64 + most <= u32::MAX as u64
    }

    /// Whether this state satisfies the invariant of reachable states.
    pub fn is_wf(&self, actions_map: &Catalog) -> (b: bool)
        ensures
            b == self@.wf(actions_map@),
    {
        if self.mp > MP_CAP {
            return false;
        }
        let mut i: u8 = 0;
        while i < ACTION_COUNT
            invariant
                i <= ACTION_COUNT,
                forall|n: ActionName|
                    n.slot() < i ==> status_ok(
                        #[trigger] self@.status[n],
                        actions_map@[n],
                        self@.global_cooldown,
                    ),
            decreases ACTION_COUNT - i,
        {
            let name = ActionName::from_index(i).unwrap();
            proof {
                ActionName::lemma_at_slot(i);
            }
            let a = actions_map.get(name);
            let st = self.action_status.get(name);
            let lone = match a.cooldown_type {
                CooldownType::Global => true,
                _ => false,
            };
            let good = st.charges <= a.max_charges && st.cooldown <= a.recast && (st.charges
                >= a.max_charges || st.cooldown >= 1) && (st.charges != a.max_charges
                || st.cooldown == 0) && (st.duration != 0 || st.count == 0) && (!(lone
                && st.charges == 0) || st.cooldown <= self.global_cooldown);
            if !good {
                assert(!status_ok(self@.status[name], actions_map@[name], self@.global_cooldown));
                return false;
            }
            assert forall|n: ActionName| n.slot() < i + 1 implies status_ok(
                #[trigger] self@.status[n],
                actions_map@[n],
                self@.global_cooldown,
            ) by {
                n.lemma_slots();
            }
            i += 1;
        }
        assert forall|n: ActionName|
            status_ok(#[trigger] self@.status[n], actions_map@[n], self@.global_cooldown) by {
            n.lemma_slots();
        }
        true
    }

    /// Stores the free uses of `owner` anew.
    fn seed(&mut self, owner: ActionName, a: &Action)
        ensures
            final(self)@ == old(self)@.seed(owner, *a),
    {
        let mut st = self.action_status.get(owner);
        st.count = a.max_count;
        st.duration = a.max_duration;
        self.action_status.set(owner, st);
    }

    /// Takes one stored free use of `owner`.
    fn take_free(&mut self, owner: ActionName)
        requires
            old(self)@.status[owner].count > 0,
        ensures
            final(self)@ == old(self)@.take_free(owner),
    {
        let mut st = self.action_status.get(owner);
        st.count -= 1;
        self.action_status.set(owner, st);
    }

    /// Whether this state meets `needs`.
    fn meets(&self, needs: Needs) -> (b: bool)
        ensures
            b == self@.meets(needs),
    {
        match needs {
            Needs::Nothing => true,
            Needs::Basic(stage) => self.basic_combo == stage,
            Needs::Blade(stage) => self.blade_combo == stage,
            Needs::Might => self.divine_might == DivineMight::Ready,
            Needs::ConfiteorReady => self.confiteor == Confiteor::Ready,
            Needs::FreeUse(owner) => self.action_status.get(owner).count > 0,
        }
    }

    /// Makes the moves of a branch.
    fn make(&mut self, moves: Moves, actions_map: &Catalog)
        ensures
            final(self)@ == old(self)@.moved(moves, actions_map@),
    {
        if let Some(stage) = moves.basic {
            self.basic_combo = stage;
        }
        if let Some(stage) = moves.blade {
            self.blade_combo = stage;
        }
        if let Some(flag) = moves.might {
            self.divine_might = flag;
        }
        if let Some(flag) = moves.confiteor {
            self.confiteor = flag;
        }
        if let Some(owner) = moves.seed {
            let source = actions_map.get(owner);
            self.seed(owner, &source);
        }
    }

    /// Takes a branch of a rule. Returns the score value and the cast time
    /// of this use.
    fn take_branch(&mut self, branch: Branch, action: &Action, actions_map: &Catalog) -> (r: (
        u32,
        u32,
    ))
        ensures
            old(self)@.branch(branch, *action, actions_map@) == (Resolved {
                state: final(self)@,
                potency: r.0 as nat,
                cast: r.1 as nat,
            }),
    {
        self.make(branch.moves, actions_map);
        if let Some(bonus) = branch.bonus {
            if self.action_status.get(bonus.owner).count > 0 {
                self.take_free(bonus.owner);
                return (value_of(action, bonus.pick), cast_of(action, bonus.instant));
            }
        }
        (value_of(action, branch.pick), cast_of(action, branch.instant))
    }

    /// Applies the entry of the effect table for `name`. Returns the score
    /// value and the cast time of this use.
    fn resolve(&mut self, name: ActionName, action: &Action, actions_map: &Catalog) -> (r: Result<
        (u32, u32),
        ActionApplyError,
    >)
        requires
            *action == actions_map@[name],
        ensures
            match r {
                Ok(pc) => old(self)@.effect(name, actions_map@) == Ok::<Resolved, ActionApplyError>(
                    Resolved { state: final(self)@, potency: pc.0 as nat, cast: pc.1 as nat },
                ),
                Err(e) => old(self)@.effect(name, actions_map@) == Err::<Resolved, ActionApplyError>(
                    e,
                ),
            },
    {
        proof {
            lemma_table_agrees(self@, name, actions_map@);
        }
        let rule = rule_for(name);
        if !rule.valid {
            return Err(ActionApplyError::NoneAction);
        }
        if self.meets(rule.needs) {
            if let Needs::FreeUse(owner) = rule.needs {
                self.take_free(owner);
            }
            Ok(self.take_branch(rule.hit, action, actions_map))
        } else {
            match rule.miss {
                Some(other) => Ok(self.take_branch(other, action, actions_map)),
                None => Err(ActionApplyError::NotReady),
            }
        }
    }

    /// The mandatory wait before `name` can be used.
    fn wait_for(&self, name: ActionName, actions_map: &Catalog) -> (w: u32)
        ensures
            w == self@.wait_time(name, actions_map@),
    {
        let action = actions_map.get(name);
        let mut wait_time = match action.cooldown_type {
            CooldownType::Global | CooldownType::GlobalStandalone => self.global_cooldown,
            _ => 0,
        };
        let status = self.action_status.get(name);
        if status.charges == 0 {
            let own = match action.cooldown_type {
                CooldownType::GlobalStandalone | CooldownType::OffGlobal => status.cooldown,
                _ => 0,
            };
            if own > wait_time {
                wait_time = own;
            }
        }
        wait_time
    }

    /// Pays for one use of `name` and consumes a charge.
    fn spend(&mut self, name: ActionName, action: &Action)
        requires
            old(self)@.mp <= MP_CAP,
            old(self)@.mp >= action.mp_cost,
            old(self)@.status[name].charges >= 1,
        ensures
            final(self)@ == old(self)@.pay(*action).spend_charge(name, *action),
    {
        self.mp -= action.mp_cost;
        self.recover_mp(action.mp_restore);

        let mut st = self.action_status.get(name);
        if st.charges == action.max_charges || st.charges == 1 {
            st.cooldown = action.recast;
        }
        st.charges -= 1;
        st.duration = action.max_duration;
        self.action_status.set(name, st);
        match action.cooldown_type {
            CooldownType::Global | CooldownType::GlobalStandalone => {
                self.global_cooldown = GLOBAL_COOLDOWN;
            },
            _ => {},
        };
    }

    /// Commits the score of one use and lets its cast pass.
    fn conclude(&mut self, potency: u32, cast: u32, actions_map: &Catalog)
        requires
            old(self)@.mp <= MP_CAP,
            old(self)@.time + cast <= u32::MAX,
            old(self)@.damage + old(self)@.gain(potency as nat) <= u32::MAX,
        ensures
            final(self)@ == old(self)@.hit(potency as nat).tick(cast as nat, actions_map@),
    {
        self.hit(potency);
        self.tick(cast, actions_map);
    }

    /// Applies one action: waits as long as the action demands, pays for
    /// it, consumes a charge, applies the combo rules, commits the score and
    /// lets the cast pass. The result is the new state, or the reason why
    /// the action cannot be used within `horizon`; this state is untouched
    /// either way.
    pub fn apply_action(
        &self,
        action_name: &ActionName,
        actions_map: &Catalog,
        horizon: u32,
    ) -> (r: Result<Player, ActionApplyError>)
        requires
            catalog_ok(actions_map@),
            self@.wf(actions_map@),
            self@.damage + most_gain(actions_map@[*action_name]) <= u32::MAX,
        ensures
            match r {
                Ok(next) => {
                    &&& self@.apply(*action_name, actions_map@, horizon as nat) == Ok::<
                        PlayerModel,
                        ActionApplyError,
                    >(next@)
                    &&& next@.wf(actions_map@)
                    &&& self@.time <= next@.time <= horizon
                    &&& self@.damage <= next@.damage
                },
                Err(e) => self@.apply(*action_name, actions_map@, horizon as nat) == Err::<
                    PlayerModel,
                    ActionApplyError,
                >(e),
            },
    {
        let name = *action_name;
        let action = actions_map.get(name);
        let mut ret = self.clone();

        let wait_time = ret.wait_for(name, actions_map);
        if wait_time > GLOBAL_COOLDOWN || ret.time > horizon || wait_time > horizon - ret.time {
            return Err(ActionApplyError::WaitTooLong);
        }
        proof {
            self@.lemma_tick_wf(wait_time as nat, actions_map@);
            self@.lemma_wait_charges(name, actions_map@);
        }
        ret.tick(wait_time, actions_map);
        let ghost waited = ret@;

        if ret.mp < action.mp_cost {
            return Err(ActionApplyError::MpNotEnough);
        }
        ret.spend(name, &action);
        let ghost spent = ret@;

        let (potency, cast) = match ret.resolve(name, &action, actions_map) {
            Ok(pc) => pc,
            Err(e) => {
                return Err(e);
            },
        };
        let ghost res = Resolved { state: ret@, potency: potency as nat, cast: cast as nat };
        proof {
            spent.lemma_effect_frame(name, actions_map@);
            assert(spent.effect(name, actions_map@) == Ok::<Resolved, ActionApplyError>(res));
        }
        if cast > horizon - ret.time {
            return Err(ActionApplyError::CastOvertime);
        }
        assert(potency / 4 * 5 <= potency + potency / 4);
        ret.conclude(potency, cast, actions_map);
        proof {
            self@.lemma_apply_keeps(name, actions_map@, horizon as nat);
        }
        Ok(ret)
    }
}

impl Default for Player {
    /// The state before any setup.
    fn default() -> (r: Self)
        ensures
            r@ == PlayerModel::fresh(),
    {
        Player {
            time: 0,
            mp: MP_CAP,
            damage: 0,
            global_cooldown: 0,
            basic_combo: BasicCombo::Idle,
            blade_combo: BladeCombo::Idle,
            divine_might: DivineMight::Idle,
            confiteor: Confiteor::Idle,
            action_status: StatusTable::filled(ActionStatus::default()),
        }
    }
}

impl Clone for Player {
    /// A copy of this state.
    fn clone(&self) -> (r: Self)
        ensures
            r@ == self@,
    {
        Player {
            time: self.time,
            mp: self.mp,
            damage: self.damage,
            global_cooldown: self.global_cooldown,
            basic_combo: self.basic_combo,
            blade_combo: self.blade_combo,
            divine_might: self.divine_might,
            confiteor: self.confiteor,
            action_status: self.action_status.clone(),
        }
    }
}

} // verus!
