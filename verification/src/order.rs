//! The priority order of the search frontier: score per unit of time,
//! compared by cross-multiplication, then elapsed time, then fingerprint.

use vstd::prelude::*;
use std::cmp::Ordering;
use crate::fingerprint::{calculate_hash, fingerprint};
use crate::model::PlayerModel;
use crate::player::Player;
use crate::wide::product;

verus! {

/// How `a` ranks against `b`. The state with the higher score per unit of
/// time ranks higher: `a.damage / a.time` against `b.damage / b.time`,
/// compared as `a.damage * b.time` against `b.damage * a.time`. Equal rates
/// are ordered by elapsed time, and equal times by fingerprint.
pub open spec fn rate_order(a: PlayerModel, b: PlayerModel) -> Ordering {
    if a.damage * b.time < b.damage * a.time {
        Ordering::Less
    } else if a.damage * b.time > b.damage * a.time {
        Ordering::Greater
    } else if a.time < b.time {
        Ordering::Less
    } else if a.time > b.time {
        Ordering::Greater
    } else if fingerprint(a) < fingerprint(b) {
        Ordering::Less
    } else if fingerprint(a) > fingerprint(b) {
        Ordering::Greater
    } else {
        Ordering::Equal
    }
}

/// Whether `a` ranks strictly above `b`.
pub open spec fn outranks(a: PlayerModel, b: PlayerModel) -> bool {
    rate_order(a, b) == Ordering::Greater
}

/// No state ranks above itself, and of two states at most one ranks above
/// the other.
pub proof fn lemma_rate_order_antisymmetric(a: PlayerModel, b: PlayerModel)
    ensures
        rate_order(a, a) == Ordering::Equal,
        rate_order(a, b) == Ordering::Greater <==> rate_order(b, a) == Ordering::Less,
        rate_order(a, b) == Ordering::Equal <==> rate_order(b, a) == Ordering::Equal,
{
}

impl Player {
    /// Whether this state ranks strictly above `other`.
    pub fn outranks(&self, other: &Player) -> (b: bool)
        ensures
            b == outranks(self@, other@),
    {
        match self.cmp(other) {
            Ordering::Greater => true,
            _ => false,
        }
    }

    /// Ranks this state against `other`.
    pub fn cmp(&self, other: &Player) -> (r: Ordering)
        ensures
            r == rate_order(self@, other@),
    {
        let left = product(self.damage(), other.time());
        let right = product(other.damage(), self.time());
        if left < right {
            return Ordering::Less;
        }
        if left > right {
            return Ordering::Greater;
        }
        if self.time() < other.time() {
            return Ordering::Less;
        }
        if self.time() > other.time() {
            return Ordering::Greater;
        }
        let mine = calculate_hash(self);
        let theirs = calculate_hash(other);
        if mine < theirs {
            Ordering::Less
        } else if mine > theirs {
            Ordering::Greater
        } else {
            Ordering::Equal
        }
    }
}

} // verus!
