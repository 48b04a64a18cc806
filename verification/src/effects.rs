//! The effect table: for each action, as data, the stage it needs, the
//! stages it moves, the free uses it stores or takes, and the score value
//! it earns. One function reads a rule and applies it to a state.

use vstd::prelude::*;
use crate::model::PlayerModel;
use crate::names::{
    Action, ActionName, BasicCombo, BladeCombo, Confiteor, DivineMight, ANIMATION_LOCK,
};
use crate::rules::{ActionApplyError, Resolved};

verus! {

/// What must hold for a rule to take its main branch.
#[derive(Debug, PartialEq, Eq, Copy, Clone, Structural)]
pub enum Needs {
    /// Nothing: the main branch is always taken.
    Nothing,
    /// The basic combo is at this stage.
    Basic(BasicCombo),
    /// The blade chain is at this stage.
    Blade(BladeCombo),
    /// Divine Might is ready.
    Might,
    /// Confiteor is ready.
    ConfiteorReady,
    /// The named action has a stored free use, which is taken.
    FreeUse(ActionName),
}

/// Which of the score values of an action a use earns.
#[derive(Debug, PartialEq, Eq, Copy, Clone, Structural)]
pub enum Pick {
    Base,
    Secondary,
    Tertiary,
}

/// The stages that a branch sets and the free uses that it stores. A field
/// that is `None` leaves its stage as it is.
#[derive(Debug, PartialEq, Eq, Copy, Clone, Structural)]
pub struct Moves {
    pub basic: Option<BasicCombo>,
    pub blade: Option<BladeCombo>,
    pub might: Option<DivineMight>,
    pub confiteor: Option<Confiteor>,
    /// The action whose free uses are stored anew.
    pub seed: Option<ActionName>,
}

/// A stored free use that upgrades a branch: where `owner` has one, it is
/// taken, and the use earns `pick`.
#[derive(Debug, PartialEq, Eq, Copy, Clone, Structural)]
pub struct Bonus {
    pub owner: ActionName,
    pub pick: Pick,
    /// Whether the use then takes only the animation lock.
    pub instant: bool,
}

/// One way a use of an action can go.
#[derive(Debug, PartialEq, Eq, Copy, Clone, Structural)]
pub struct Branch {
    pub moves: Moves,
    pub pick: Pick,
    /// Whether the use takes only the animation lock.
    pub instant: bool,
    pub bonus: Option<Bonus>,
}

/// The entry of the effect table for one action.
#[derive(Debug, PartialEq, Eq, Copy, Clone, Structural)]
pub struct EffectRule {
    /// Whether the identifier is an action at all.
    pub valid: bool,
    pub needs: Needs,
    /// The branch taken where `needs` holds.
    pub hit: Branch,
    /// The branch taken where it does not; `None` rejects the action.
    pub miss: Option<Branch>,
}

/// The score value of `a` that `pick` names.
pub open spec fn picked(a: Action, pick: Pick) -> nat {
    match pick {
        Pick::Base => a.potency as nat,
        Pick::Secondary => a.secondary_potency as nat,
        Pick::Tertiary => a.tertiary_potency as nat,
    }
}

/// The cast time of a use of `a`.
pub open spec fn cast_time(a: Action, instant: bool) -> nat {
    if instant {
        ANIMATION_LOCK as nat
    } else {
        a.cast as nat
    }
}

impl PlayerModel {
    /// Whether this state meets `needs`.
    pub open spec fn meets(self, needs: Needs) -> bool {
        match needs {
            Needs::Nothing => true,
            Needs::Basic(stage) => self.basic_combo == stage,
            Needs::Blade(stage) => self.blade_combo == stage,
            Needs::Might => self.divine_might == DivineMight::Ready,
            Needs::ConfiteorReady => self.confiteor == Confiteor::Ready,
            Needs::FreeUse(owner) => self.status[owner].count > 0,
        }
    }

    /// This state with what meeting `needs` consumes taken.
    pub open spec fn consume(self, needs: Needs) -> PlayerModel {
        match needs {
            Needs::FreeUse(owner) => self.take_free(owner),
            _ => self,
        }
    }

    /// This state with `moves` made.
    pub open spec fn moved(self, moves: Moves, cat: Map<ActionName, Action>) -> PlayerModel {
        let staged = PlayerModel {
            basic_combo: match moves.basic {
                Some(stage) => stage,
                None => self.basic_combo,
            },
            blade_combo: match moves.blade {
                Some(stage) => stage,
                None => self.blade_combo,
            },
            divine_might: match moves.might {
                Some(flag) => flag,
                None => self.divine_might,
            },
            confiteor: match moves.confiteor {
                Some(flag) => flag,
                None => self.confiteor,
            },
            ..self
        };
        match moves.seed {
            Some(owner) => staged.seed(owner, cat[owner]),
            None => staged,
        }
    }

    /// What a use of `a` resolves to along `branch`.
    pub open spec fn branch(self, branch: Branch, a: Action, cat: Map<ActionName, Action>) -> Resolved {
        let after = self.moved(branch.moves, cat);
        match branch.bonus {
            Some(bonus) => if after.status[bonus.owner].count > 0 {
                Resolved {
                    state: after.take_free(bonus.owner),
                    potency: picked(a, bonus.pick),
                    cast: cast_time(a, bonus.instant),
                }
            } else {
                Resolved {
                    state: after,
                    potency: picked(a, branch.pick),
                    cast: cast_time(a, branch.instant),
                }
            },
            None => Resolved {
                state: after,
                potency: picked(a, branch.pick),
                cast: cast_time(a, branch.instant),
            },
        }
    }

    /// What one use of an action described by `a` resolves to under `rule`.
    pub open spec fn follow(self, rule: EffectRule, a: Action, cat: Map<ActionName, Action>) -> Result<
        Resolved,
        ActionApplyError,
    > {
        if !rule.valid {
            Err(ActionApplyError::NoneAction)
        } else if self.meets(rule.needs) {
            Ok(self.consume(rule.needs).branch(rule.hit, a, cat))
        } else {
            match rule.miss {
                Some(other) => Ok(self.branch(other, a, cat)),
                None => Err(ActionApplyError::NotReady),
            }
        }
    }
}

/// No stage moves.
pub open spec fn still() -> Moves {
    Moves { basic: None, blade: None, might: None, confiteor: None, seed: None }
}

/// The branch that moves nothing and earns the base value.
pub open spec fn plain() -> Branch {
    Branch { moves: still(), pick: Pick::Base, instant: false, bonus: None }
}

/// Moves of a basic combo step: the basic combo goes to `basic`, and the
/// blade chain ends.
pub open spec fn basic_moves(basic: BasicCombo) -> Moves {
    Moves { basic: Some(basic), blade: Some(BladeCombo::Idle), ..still() }
}

/// The branch of a blade chain step to `next`: the basic combo ends, and a
/// stored free use of Requiescat earns the secondary value.
pub open spec fn chain_branch(next: BladeCombo, confiteor: Option<Confiteor>) -> Branch {
    Branch {
        moves: Moves { basic: Some(BasicCombo::Idle), blade: Some(next), confiteor, ..still() },
        bonus: Some(Bonus { owner: ActionName::Requiescat, pick: Pick::Secondary, instant: false }),
        ..plain()
    }
}

/// The effect table.
pub open spec fn rule_of(name: ActionName) -> EffectRule {
    let free = EffectRule { valid: true, needs: Needs::Nothing, hit: plain(), miss: None };
    match name {
        ActionName::NoAction => EffectRule { valid: false, ..free },
        ActionName::FastBlade => EffectRule {
            hit: Branch { moves: basic_moves(BasicCombo::FastBlade), ..plain() },
            ..free
        },
        ActionName::RiotBlade => EffectRule {
            needs: Needs::Basic(BasicCombo::FastBlade),
            hit: Branch {
                moves: basic_moves(BasicCombo::RiotBlade),
                pick: Pick::Secondary,
                ..plain()
            },
            miss: Some(Branch { moves: basic_moves(BasicCombo::Idle), ..plain() }),
            ..free
        },
        ActionName::RoyalAuthority => EffectRule {
            needs: Needs::Basic(BasicCombo::RiotBlade),
            hit: Branch {
                moves: Moves {
                    might: Some(DivineMight::Ready),
                    seed: Some(ActionName::Atonement),
                    ..basic_moves(BasicCombo::Idle)
                },
                pick: Pick::Secondary,
                ..plain()
            },
            miss: Some(Branch { moves: basic_moves(BasicCombo::Idle), ..plain() }),
            ..free
        },
        ActionName::HolySpirit => EffectRule {
            needs: Needs::Might,
            hit: Branch {
                moves: Moves { might: Some(DivineMight::Idle), ..still() },
                pick: Pick::Secondary,
                instant: true,
                ..plain()
            },
            miss: Some(
                Branch {
                    bonus: Some(
                        Bonus { owner: ActionName::Requiescat, pick: Pick::Tertiary, instant: true },
                    ),
                    ..plain()
                },
            ),
            ..free
        },
        ActionName::Requiescat => EffectRule {
            hit: Branch {
                moves: Moves {
                    confiteor: Some(Confiteor::Ready),
                    seed: Some(ActionName::Requiescat),
                    ..still()
                },
                ..plain()
            },
            ..free
        },
        ActionName::Atonement => EffectRule {
            needs: Needs::FreeUse(ActionName::Atonement),
            ..free
        },
        ActionName::Confiteor => EffectRule {
            needs: Needs::ConfiteorReady,
            hit: chain_branch(BladeCombo::Confiteor, Some(Confiteor::Idle)),
            ..free
        },
        ActionName::BladeOfFaith => EffectRule {
            needs: Needs::Blade(BladeCombo::Confiteor),
            hit: chain_branch(BladeCombo::BladeOfFaith, None),
            ..free
        },
        ActionName::BladeOfTruth => EffectRule {
            needs: Needs::Blade(BladeCombo::BladeOfFaith),
            hit: chain_branch(BladeCombo::BladeOfTruth, None),
            miss: Some(plain()),
            ..free
        },
        ActionName::BladeOfValor => EffectRule {
            needs: Needs::Blade(BladeCombo::BladeOfTruth),
            hit: chain_branch(BladeCombo::Idle, None),
            ..free
        },
        _ => EffectRule { miss: Some(plain()), ..free },
    }
}

/// Following the entry of the table for `name` is what the combo rules
/// say of `name`, case by case.
pub proof fn lemma_table_agrees(s: PlayerModel, name: ActionName, cat: Map<ActionName, Action>)
    ensures
        s.follow(rule_of(name), cat[name], cat) == s.effect(name, cat),
{
    let a = cat[name];
    let rule = rule_of(name);
    match name {
        ActionName::RoyalAuthority => {
            if s.basic_combo == BasicCombo::RiotBlade {
                let moved = s.moved(rule.hit.moves, cat);
                let direct = PlayerModel {
                    basic_combo: BasicCombo::Idle,
                    blade_combo: BladeCombo::Idle,
                    divine_might: DivineMight::Ready,
                    ..s.seed(ActionName::Atonement, cat[ActionName::Atonement])
                };
                assert(moved.status =~= direct.status);
            }
        },
        ActionName::Requiescat => {
            let moved = s.moved(rule.hit.moves, cat);
            let direct = PlayerModel {
                confiteor: Confiteor::Ready,
                ..s.seed(ActionName::Requiescat, a)
            };
            assert(moved.status =~= direct.status);
        },
        _ => {},
    }
}

/// The entry of the effect table for `name`.
pub fn rule_for(name: ActionName) -> (r: EffectRule)
    ensures
        r == rule_of(name),
{
    let still = Moves { basic: None, blade: None, might: None, confiteor: None, seed: None };
    let plain = Branch { moves: still, pick: Pick::Base, instant: false, bonus: None };
    let free = EffectRule { valid: true, needs: Needs::Nothing, hit: plain, miss: None };
    let end_basic = Moves { basic: Some(BasicCombo::Idle), blade: Some(BladeCombo::Idle), ..still };
    let upgrade = Bonus { owner: ActionName::Requiescat, pick: Pick::Secondary, instant: false };
    let chain = Branch {
        moves: Moves { basic: Some(BasicCombo::Idle), ..still },
        bonus: Some(upgrade),
        ..plain
    };
    match name {
        ActionName::NoAction => EffectRule { valid: false, ..free },
        ActionName::FastBlade => EffectRule {
            hit: Branch { moves: Moves { basic: Some(BasicCombo::FastBlade), ..end_basic }, ..plain },
            ..free
        },
        ActionName::RiotBlade => EffectRule {
            needs: Needs::Basic(BasicCombo::FastBlade),
            hit: Branch {
                moves: Moves { basic: Some(BasicCombo::RiotBlade), ..end_basic },
                pick: Pick::Secondary,
                ..plain
            },
            miss: Some(Branch { moves: end_basic, ..plain }),
            ..free
        },
        ActionName::RoyalAuthority => EffectRule {
            needs: Needs::Basic(BasicCombo::RiotBlade),
            hit: Branch {
                moves: Moves {
                    might: Some(DivineMight::Ready),
                    seed: Some(ActionName::Atonement),
                    ..end_basic
                },
                pick: Pick::Secondary,
                ..plain
            },
            miss: Some(Branch { moves: end_basic, ..plain }),
            ..free
        },
        ActionName::HolySpirit => EffectRule {
            needs: Needs::Might,
            hit: Branch {
                moves: Moves { might: Some(DivineMight::Idle), ..still },
                pick: Pick::Secondary,
                instant: true,
                ..plain
            },
            miss: Some(
                Branch {
                    bonus: Some(
                        Bonus { owner: ActionName::Requiescat, pick: Pick::Tertiary, instant: true },
                    ),
                    ..plain
                },
            ),
            ..free
        },
        ActionName::Requiescat => EffectRule {
            hit: Branch {
                moves: Moves {
                    confiteor: Some(Confiteor::Ready),
                    seed: Some(ActionName::Requiescat),
                    ..still
                },
                ..plain
            },
            ..free
        },
        ActionName::Atonement => EffectRule { needs: Needs::FreeUse(ActionName::Atonement), ..free },
        ActionName::Confiteor => EffectRule {
            needs: Needs::ConfiteorReady,
            hit: Branch {
                moves: Moves {
                    blade: Some(BladeCombo::Confiteor),
                    confiteor: Some(Confiteor::Idle),
                    ..chain.moves
                },
                ..chain
            },
            ..free
        },
        ActionName::BladeOfFaith => EffectRule {
            needs: Needs::Blade(BladeCombo::Confiteor),
            hit: Branch {
                moves: Moves { blade: Some(BladeCombo::BladeOfFaith), ..chain.moves },
                ..chain
            },
            ..free
        },
        ActionName::BladeOfTruth => EffectRule {
            needs: Needs::Blade(BladeCombo::BladeOfFaith),
            hit: Branch {
                moves: Moves { blade: Some(BladeCombo::BladeOfTruth), ..chain.moves },
                ..chain
            },
            miss: Some(plain),
            ..free
        },
        ActionName::BladeOfValor => EffectRule {
            needs: Needs::Blade(BladeCombo::BladeOfTruth),
            hit: Branch { moves: Moves { blade: Some(BladeCombo::Idle), ..chain.moves }, ..chain },
            ..free
        },
        _ => EffectRule { miss: Some(plain), ..free },
    }
}

} // verus!
