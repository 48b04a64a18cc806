//! The transition made by one action: the mandatory wait, the resource
//! check, the charge, the combo rules, the score and the cast.

use vstd::prelude::*;
use crate::model::{capped, lemma_status_after_ok, status_ok, timers_ok, PlayerModel};
use crate::names::{
    Action, ActionName, BasicCombo, BladeCombo, Confiteor, DivineMight, ANIMATION_LOCK,
    GLOBAL_COOLDOWN, MP_CAP,
};
use crate::status::{lemma_regen_awards, lemma_regen_bounds, ActionStatus};
use crate::table::catalog_ok;

verus! {

/// Why an action could not be applied.
#[derive(Debug, PartialEq, Eq, Copy, Clone, Structural)]
pub enum ActionApplyError {
    /// A combo, chain or free-use precondition of the action is not met.
    NotReady,
    /// The pool does not cover the cost after the mandatory wait.
    MpNotEnough,
    /// The mandatory wait is longer than the shared cooldown, or would pass
    /// the horizon.
    WaitTooLong,
    /// The cast would end after the horizon.
    CastOvertime,
    /// The sentinel identifier was requested.
    NoneAction,
}

/// What the combo rules resolve for one use of an action.
pub struct Resolved {
    /// The state with the rules applied.
    pub state: PlayerModel,
    /// The score value of this use, before the buff.
    pub potency: nat,
    /// The time this use takes.
    pub cast: nat,
}

/// The largest amount that one use of `a` can add to the score.
pub open spec fn most_gain(a: Action) -> nat {
    let p = if a.potency >= a.secondary_potency {
        a.potency
    } else {
        a.secondary_potency
    };
    let q = if p >= a.tertiary_potency {
        p
    } else {
        a.tertiary_potency
    };
    (q + q / 4) as nat
}

impl PlayerModel {
    /// The time that must pass before `name` can be used: the rest of the
    /// shared cooldown where the action shares it, and the rest of its own
    /// cooldown where its charges are exhausted and gate it.
    pub open spec fn wait_time(self, name: ActionName, cat: Map<ActionName, Action>) -> nat {
        let a = cat[name];
        let st = self.status[name];
        let shared = if a.cooldown_type.shares_global() {
            self.global_cooldown
        } else {
            0
        };
        let own = if st.charges == 0 && a.cooldown_type.charge_gated() {
            st.cooldown as nat
        } else {
            0
        };
        if shared >= own {
            shared
        } else {
            own
        }
    }

    /// This state with the cost of `a` deducted and its refund added,
    /// clamped to the cap.
    pub open spec fn pay(self, a: Action) -> PlayerModel {
        PlayerModel { mp: capped((self.mp - a.mp_cost + a.mp_restore) as nat), ..self }
    }

    /// This state with one charge of `name` consumed. The recast starts
    /// where the action was full or is now empty, and runs on otherwise; the
    /// effect of the action starts; an action that shares the shared
    /// cooldown restarts it.
    pub open spec fn spend_charge(self, name: ActionName, a: Action) -> PlayerModel {
        let st = self.status[name];
        let used = ActionStatus {
            cooldown: if st.charges == a.max_charges || st.charges == 1 {
                a.recast
            } else {
                st.cooldown
            },
            charges: (st.charges - 1) as u32,
            duration: a.max_duration,
            ..st
        };
        PlayerModel {
            global_cooldown: if a.cooldown_type.shares_global() {
                GLOBAL_COOLDOWN as nat
            } else {
                self.global_cooldown
            },
            status: self.status.insert(name, used),
            ..self
        }
    }

    /// This state with the free uses of `owner` stored anew: as many as `a`
    /// allows, for as long as its effect lasts.
    pub open spec fn seed(self, owner: ActionName, a: Action) -> PlayerModel {
        let st = self.status[owner];
        PlayerModel {
            status: self.status.insert(
                owner,
                ActionStatus { count: a.max_count, duration: a.max_duration, ..st },
            ),
            ..self
        }
    }

    /// This state with one stored free use of `owner` taken.
    pub open spec fn take_free(self, owner: ActionName) -> PlayerModel {
        let st = self.status[owner];
        PlayerModel {
            status: self.status.insert(owner, ActionStatus { count: (st.count - 1) as u32, ..st }),
            ..self
        }
    }

    /// A step of the blade chain to stage `next`: a stored free use of
    /// Requiescat, if there is one, is taken for the higher score value.
    pub open spec fn chain_step(self, a: Action, next: BladeCombo) -> Resolved {
        let moved = PlayerModel { blade_combo: next, basic_combo: BasicCombo::Idle, ..self };
        if self.status[ActionName::Requiescat].count > 0 {
            Resolved {
                state: moved.take_free(ActionName::Requiescat),
                potency: a.secondary_potency as nat,
                cast: a.cast as nat,
            }
        } else {
            Resolved { state: moved, potency: a.potency as nat, cast: a.cast as nat }
        }
    }

    /// The combo rules, by action. They pick the score value and the cast
    /// time of this use, move the combo and chain stages, store or take free
    /// uses, or reject the action.
    pub open spec fn effect(self, name: ActionName, cat: Map<ActionName, Action>) -> Result<
        Resolved,
        ActionApplyError,
    > {
        let a = cat[name];
        let plain = Resolved { state: self, potency: a.potency as nat, cast: a.cast as nat };
        match name {
            ActionName::NoAction => Err(ActionApplyError::NoneAction),
            ActionName::FastBlade => Ok(
                Resolved {
                    state: PlayerModel {
                        basic_combo: BasicCombo::FastBlade,
                        blade_combo: BladeCombo::Idle,
                        ..self
                    },
                    ..plain
                },
            ),
            ActionName::RiotBlade => if self.basic_combo == BasicCombo::FastBlade {
                Ok(
                    Resolved {
                        state: PlayerModel {
                            basic_combo: BasicCombo::RiotBlade,
                            blade_combo: BladeCombo::Idle,
                            ..self
                        },
                        potency: a.secondary_potency as nat,
                        ..plain
                    },
                )
            } else {
                Ok(
                    Resolved {
                        state: PlayerModel {
                            basic_combo: BasicCombo::Idle,
                            blade_combo: BladeCombo::Idle,
                            ..self
                        },
                        ..plain
                    },
                )
            },
            ActionName::RoyalAuthority => if self.basic_combo == BasicCombo::RiotBlade {
                Ok(
                    Resolved {
                        state: PlayerModel {
                            basic_combo: BasicCombo::Idle,
                            blade_combo: BladeCombo::Idle,
                            divine_might: DivineMight::Ready,
                            ..self.seed(ActionName::Atonement, cat[ActionName::Atonement])
                        },
                        potency: a.secondary_potency as nat,
                        ..plain
                    },
                )
            } else {
                Ok(
                    Resolved {
                        state: PlayerModel {
                            basic_combo: BasicCombo::Idle,
                            blade_combo: BladeCombo::Idle,
                            ..self
                        },
                        ..plain
                    },
                )
            },
            ActionName::HolySpirit => if self.divine_might == DivineMight::Ready {
                Ok(
                    Resolved {
                        state: PlayerModel { divine_might: DivineMight::Idle, ..self },
                        potency: a.secondary_potency as nat,
                        cast: ANIMATION_LOCK as nat,
                    },
                )
            } else if self.status[ActionName::Requiescat].count > 0 {
                Ok(
                    Resolved {
                        state: self.take_free(ActionName::Requiescat),
                        potency: a.tertiary_potency as nat,
                        cast: ANIMATION_LOCK as nat,
                    },
                )
            } else {
                Ok(plain)
            },
            ActionName::Requiescat => Ok(
                Resolved {
                    state: PlayerModel {
                        confiteor: Confiteor::Ready,
                        ..self.seed(ActionName::Requiescat, a)
                    },
                    ..plain
                },
            ),
            ActionName::Atonement => if self.status[ActionName::Atonement].count == 0 {
                Err(ActionApplyError::NotReady)
            } else {
                Ok(Resolved { state: self.take_free(ActionName::Atonement), ..plain })
            },
            ActionName::Confiteor => if self.confiteor == Confiteor::Idle {
                Err(ActionApplyError::NotReady)
            } else {
                Ok(
                    PlayerModel { confiteor: Confiteor::Idle, ..self }.chain_step(
                        a,
                        BladeCombo::Confiteor,
                    ),
                )
            },
            ActionName::BladeOfFaith => if self.blade_combo == BladeCombo::Confiteor {
                Ok(self.chain_step(a, BladeCombo::BladeOfFaith))
            } else {
                Err(ActionApplyError::NotReady)
            },
            ActionName::BladeOfTruth => if self.blade_combo == BladeCombo::BladeOfFaith {
                Ok(self.chain_step(a, BladeCombo::BladeOfTruth))
            } else {
                Ok(plain)
            },
            ActionName::BladeOfValor => if self.blade_combo == BladeCombo::BladeOfTruth {
                Ok(self.chain_step(a, BladeCombo::Idle))
            } else {
                Err(ActionApplyError::NotReady)
            },
            _ => Ok(plain),
        }
    }

    /// The transition made by action `name` within `horizon`: the state that
    /// results, or the reason why there is none.
    pub open spec fn apply(
        self,
        name: ActionName,
        cat: Map<ActionName, Action>,
        horizon: nat,
    ) -> Result<PlayerModel, ActionApplyError> {
        let a = cat[name];
        let wait = self.wait_time(name, cat);
        if wait > GLOBAL_COOLDOWN || self.time + wait > horizon {
            Err(ActionApplyError::WaitTooLong)
        } else {
            let waited = self.tick(wait, cat);
            if waited.mp < a.mp_cost {
                Err(ActionApplyError::MpNotEnough)
            } else {
                match waited.pay(a).spend_charge(name, a).effect(name, cat) {
                    Err(e) => Err(e),
                    Ok(res) => if res.state.time + res.cast > horizon {
                        Err(ActionApplyError::CastOvertime)
                    } else {
                        Ok(res.state.hit(res.potency).tick(res.cast, cat))
                    },
                }
            }
        }
    }

    /// The invariant without its clause on stored free uses, which the
    /// steps of a transition may break until the cast has passed.
    pub open spec fn timers_wf(self, cat: Map<ActionName, Action>) -> bool {
        &&& self.mp <= MP_CAP
        &&& forall|n: ActionName|
            timers_ok(#[trigger] self.status[n], cat[n], self.global_cooldown)
    }

    /// After the mandatory wait the action has a charge.
    pub proof fn lemma_wait_charges(self, name: ActionName, cat: Map<ActionName, Action>)
        requires
            catalog_ok(cat),
            self.wf(cat),
        ensures
            self.tick(self.wait_time(name, cat), cat).status[name].charges >= 1,
    {
        let st = self.status[name];
        let a = cat[name];
        let wait = self.wait_time(name, cat);
        assert(status_ok(st, a, self.global_cooldown));
        lemma_regen_bounds(
            st.charges as nat,
            st.cooldown as nat,
            wait,
            a.max_charges as nat,
            a.recast as nat,
        );
        if st.charges == 0 {
            lemma_regen_awards(0, st.cooldown as nat, wait, a.max_charges as nat, a.recast as nat);
        }
    }

    /// The combo rules touch neither the pool, the clock, the score, the
    /// shared cooldown, nor the charges and cooldown of any action.
    pub proof fn lemma_effect_frame(self, name: ActionName, cat: Map<ActionName, Action>)
        requires
            self.effect(name, cat) is Ok,
        ensures
            ({
                let res = self.effect(name, cat)->Ok_0;
                &&& res.state.mp == self.mp
                &&& res.state.time == self.time
                &&& res.state.damage == self.damage
                &&& res.state.global_cooldown == self.global_cooldown
                &&& res.potency <= most_gain(cat[name])
                &&& forall|n: ActionName|
                    #![trigger res.state.status[n]]
                    {
                        &&& res.state.status[n].charges == self.status[n].charges
                        &&& res.state.status[n].cooldown == self.status[n].cooldown
                    }
            }),
    {
    }

    /// A transition keeps the invariant, never turns the clock back, ends
    /// within the horizon and never lowers the score.
    pub proof fn lemma_apply_keeps(
        self,
        name: ActionName,
        cat: Map<ActionName, Action>,
        horizon: nat,
    )
        requires
            catalog_ok(cat),
            self.wf(cat),
            self.apply(name, cat, horizon) is Ok,
        ensures
            ({
                let next = self.apply(name, cat, horizon)->Ok_0;
                &&& next.wf(cat)
                &&& self.time <= next.time <= horizon
                &&& self.damage <= next.damage <= self.damage + most_gain(cat[name])
            }),
    {
        let a = cat[name];
        let wait = self.wait_time(name, cat);
        let waited = self.tick(wait, cat);
        self.lemma_tick_wf(wait, cat);
        self.lemma_wait_charges(name, cat);
        let spent = waited.pay(a).spend_charge(name, a);
        assert(spent.timers_wf(cat)) by {
            assert forall|n: ActionName|
                timers_ok(#[trigger] spent.status[n], cat[n], spent.global_cooldown) by {
                assert(status_ok(waited.status[n], cat[n], waited.global_cooldown));
            }
        }
        spent.lemma_effect_frame(name, cat);
        let res = spent.effect(name, cat)->Ok_0;
        let scored = res.state.hit(res.potency);
        assert(scored.timers_wf(cat)) by {
            assert forall|n: ActionName|
                timers_ok(#[trigger] scored.status[n], cat[n], scored.global_cooldown) by {
                assert(timers_ok(spent.status[n], cat[n], spent.global_cooldown));
                assert(res.state.status[n].charges == spent.status[n].charges);
            }
        }
        let next = scored.tick(res.cast, cat);
        assert forall|n: ActionName|
            status_ok(#[trigger] next.status[n], cat[n], next.global_cooldown) by {
            assert(timers_ok(scored.status[n], cat[n], scored.global_cooldown));
            lemma_status_after_ok(scored.status[n], cat[n], scored.global_cooldown, res.cast);
        }
        assert(res.potency / 4 * 5 <= res.potency + res.potency / 4);
    }
}

} // verus!
