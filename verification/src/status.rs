//! The dynamic status of one action: cooldown, charges, active effect and
//! stored free uses, and how time changes them.

use vstd::prelude::*;
use crate::names::{Action, ActionName};

verus! {

/// Per-action dynamic status inside a combat state.
#[derive(Debug, PartialEq, Eq, Copy, Clone, Hash, Structural)]
pub struct ActionStatus {
    pub name: ActionName,
    pub cooldown: u32,
    pub duration: u32,
    pub charges: u32,
    pub count: u32,
}

/// `a - b`, floored at zero.
pub open spec fn minus_floor(a: nat, b: nat) -> nat {
    if a <= b {
        0
    } else {
        (a - b) as nat
    }
}

/// Subtraction that stops at zero.
#[inline(always)]
pub fn sub_to_zero(a: u32, b: u32) -> (r: u32)
    ensures
        r == minus_floor(a as nat, b as nat),
{
    if a <= b {
        0
    } else {
        a - b
    }
}

/// Charge regeneration over `time`: the pair (charges, cooldown) that results
/// from (`charges`, `cooldown`). While a charge is missing and time is left,
/// the cooldown runs down; when it reaches zero one charge is awarded and the
/// cooldown restarts at `recast`, or rests at zero once `max` is reached.
pub open spec fn regen(charges: nat, cooldown: nat, time: nat, max: nat, recast: nat) -> (nat, nat)
    decreases max - charges,
{
    if charges < max && time > 0 {
        if cooldown > time {
            (charges, (cooldown - time) as nat)
        } else {
            regen(
                charges + 1,
                if charges + 1 == max {
                    0
                } else {
                    recast
                },
                (time - cooldown) as nat,
                max,
                recast,
            )
        }
    } else {
        (charges, cooldown)
    }
}

/// Regeneration never passes `max` (nor lowers the charges), and the cooldown
/// it leaves is bounded by the larger of the old cooldown and `recast`.
pub proof fn lemma_regen_bounds(charges: nat, cooldown: nat, time: nat, max: nat, recast: nat)
    ensures
        charges <= regen(charges, cooldown, time, max, recast).0,
        charges <= max ==> regen(charges, cooldown, time, max, recast).0 <= max,
        charges >= max ==> regen(charges, cooldown, time, max, recast) == (charges, cooldown),
        regen(charges, cooldown, time, max, recast).1 <= cooldown || regen(
            charges,
            cooldown,
            time,
            max,
            recast,
        ).1 <= recast,
    decreases max - charges,
{
    if charges < max && time > 0 && cooldown <= time {
        lemma_regen_bounds(
            charges + 1,
            if charges + 1 == max {
                0
            } else {
                recast
            },
            (time - cooldown) as nat,
            max,
            recast,
        );
    }
}

/// Regenerating over `a` and then over `b` is regenerating over `a + b`.
pub proof fn lemma_regen_split(charges: nat, cooldown: nat, a: nat, b: nat, max: nat, recast: nat)
    ensures
        ({
            let first = regen(charges, cooldown, a, max, recast);
            regen(first.0, first.1, b, max, recast)
        }) == regen(charges, cooldown, a + b, max, recast),
    decreases max - charges,
{
    if charges < max && a > 0 && cooldown <= a {
        lemma_regen_split(
            charges + 1,
            if charges + 1 == max {
                0
            } else {
                recast
            },
            (a - cooldown) as nat,
            b,
            max,
            recast,
        );
    }
}

/// Where the cooldown has run out within `time`, a charge is awarded.
pub proof fn lemma_regen_awards(charges: nat, cooldown: nat, time: nat, max: nat, recast: nat)
    requires
        charges < max,
        0 < time,
        cooldown <= time,
    ensures
        regen(charges, cooldown, time, max, recast).0 >= charges + 1,
{
    lemma_regen_bounds(
        charges + 1,
        if charges + 1 == max {
            0
        } else {
            recast
        },
        (time - cooldown) as nat,
        max,
        recast,
    );
}

/// After regeneration the cooldown runs exactly while a charge is missing:
/// it is positive then, where the cooldown before was and `recast` is, and
/// it is zero once the action is full, where it was zero on a full action
/// before.
pub proof fn lemma_regen_running(charges: nat, cooldown: nat, time: nat, max: nat, recast: nat)
    requires
        charges < max ==> cooldown >= 1,
        charges == max ==> cooldown == 0,
        charges <= max,
        recast >= 1,
    ensures
        regen(charges, cooldown, time, max, recast).0 < max ==> regen(
            charges,
            cooldown,
            time,
            max,
            recast,
        ).1 >= 1,
        regen(charges, cooldown, time, max, recast).0 == max ==> regen(
            charges,
            cooldown,
            time,
            max,
            recast,
        ).1 == 0,
    decreases max - charges,
{
    if charges < max && time > 0 && cooldown <= time {
        lemma_regen_running(
            charges + 1,
            if charges + 1 == max {
                0
            } else {
                recast
            },
            (time - cooldown) as nat,
            max,
            recast,
        );
    }
}

/// Where no charge was awarded, the cooldown just ran down by `time`.
pub proof fn lemma_regen_idle(charges: nat, cooldown: nat, time: nat, max: nat, recast: nat)
    requires
        charges < max,
        regen(charges, cooldown, time, max, recast).0 == charges,
    ensures
        time == 0 || cooldown > time,
        regen(charges, cooldown, time, max, recast).1 == cooldown - time,
{
    if time > 0 && cooldown <= time {
        lemma_regen_awards(charges, cooldown, time, max, recast);
    }
}

impl ActionStatus {
    /// The status of an action that was never set up.
    pub open spec fn blank() -> ActionStatus {
        ActionStatus { name: ActionName::NoAction, cooldown: 0, duration: 0, charges: 0, count: 0 }
    }

    /// The status after `time` has passed, for an action described by
    /// `action`. The effect duration runs down to zero, and the stored
    /// free uses are lost the moment it is zero; charges regenerate.
    pub open spec fn after(self, time: nat, action: Action) -> ActionStatus {
        let duration = minus_floor(self.duration as nat, time);
        let pair = regen(
            self.charges as nat,
            self.cooldown as nat,
            time,
            action.max_charges as nat,
            action.recast as nat,
        );
        ActionStatus {
            name: self.name,
            cooldown: pair.1 as u32,
            duration: duration as u32,
            charges: pair.0 as u32,
            count: if duration == 0 {
                0
            } else {
                self.count
            },
        }
    }

    /// Ticking by `a` and then by `b` equals ticking once by `a + b`.
    pub proof fn lemma_after_split(self, a: nat, b: nat, action: Action)
        ensures
            self.after(a, action).after(b, action) == self.after(a + b, action),
    {
        let max = action.max_charges as nat;
        let recast = action.recast as nat;
        lemma_regen_split(self.charges as nat, self.cooldown as nat, a, b, max, recast);
        lemma_regen_bounds(self.charges as nat, self.cooldown as nat, a, max, recast);
        lemma_regen_bounds(self.charges as nat, self.cooldown as nat, a + b, max, recast);
    }

    /// Charges never pass the maximum, and time never lowers them.
    pub proof fn lemma_after_charges(self, time: nat, action: Action)
        ensures
            self.charges <= self.after(time, action).charges,
            self.charges <= action.max_charges ==> self.after(time, action).charges
                <= action.max_charges,
            self.after(time, action).duration == 0 ==> self.after(time, action).count == 0,
    {
        lemma_regen_bounds(
            self.charges as nat,
            self.cooldown as nat,
            time,
            action.max_charges as nat,
            action.recast as nat,
        );
    }

    /// Advances this status by `time`.
    pub fn tick(&mut self, time: u32, action: &Action)
        ensures
            *final(self) == old(self).after(time as nat, *action),
    {
        let ghost total = time as nat;
        let ghost max = action.max_charges as nat;
        let ghost recast = action.recast as nat;
        let ghost goal = regen(old(self).charges as nat, old(self).cooldown as nat, total, max, recast);
        self.duration = sub_to_zero(self.duration, time);
        if self.duration == 0 {
            self.count = 0;
        };

        let mut time = time;
        while self.charges < action.max_charges && time > 0
            invariant
                max == action.max_charges,
                recast == action.recast,
                self.name == old(self).name,
                self.duration == minus_floor(old(self).duration as nat, total),
                self.count == (if self.duration == 0 {
                    0
                } else {
                    old(self).count
                }),
                regen(self.charges as nat, self.cooldown as nat, time as nat, max, recast) == goal,
            decreases action.max_charges - self.charges, time,
        {
            if self.cooldown > time {
                self.cooldown -= time;
                time = 0;
            } else {
                time -= self.cooldown;
                self.charges += 1;
                self.cooldown = if self.charges == action.max_charges {
                    0
                } else {
                    action.recast
                }
            }
        }
    }
}

impl Default for ActionStatus {
    fn default() -> (r: Self)
        ensures
            r == ActionStatus::blank(),
    {
        ActionStatus { name: ActionName::NoAction, cooldown: 0, duration: 0, charges: 0, count: 0 }
    }
}

} // verus!
