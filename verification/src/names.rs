//! Identifiers, combo stages and the static description of an action.

use vstd::prelude::*;

verus! {

/// Time an instant action locks the combatant, in milliseconds.
pub const ANIMATION_LOCK: u32 = 800;

/// Length of the shared cooldown, in milliseconds. It is also the longest
/// wait that a transition accepts.
pub const GLOBAL_COOLDOWN: u32 = 2500;

/// Upper bound of the resource pool.
pub const MP_CAP: u32 = 10000;

/// The pool regenerates each time elapsed time crosses a multiple of this.
pub const MP_INTERVAL: u32 = 3000;

/// Amount regenerated per crossed interval boundary.
pub const MP_PER_INTERVAL: u32 = 200;

/// Number of action identifiers, the sentinel included.
pub const ACTION_COUNT: u8 = 16;

/// Stage of the basic three-step combo.
#[derive(Debug, Copy, Clone, Hash, PartialEq, Eq, PartialOrd, Ord, Structural)]
pub enum BasicCombo {
    Idle,
    FastBlade,
    RiotBlade,
}

/// Stage of the blade chain that follows Confiteor.
#[derive(Debug, Copy, Clone, Hash, PartialEq, Eq, PartialOrd, Ord, Structural)]
pub enum BladeCombo {
    Idle,
    Confiteor,
    BladeOfFaith,
    BladeOfTruth,
}

/// Whether the next Holy Spirit is empowered.
#[derive(Debug, Copy, Clone, Hash, PartialEq, Eq, PartialOrd, Ord, Structural)]
pub enum DivineMight {
    Idle,
    Ready,
}

/// Whether Confiteor may be used.
#[derive(Debug, Copy, Clone, Hash, PartialEq, Eq, PartialOrd, Ord, Structural)]
pub enum Confiteor {
    Idle,
    Ready,
}

/// The closed set of action identifiers. `NoAction` is the sentinel that
/// marks the root of a search; it is never a legal action.
#[derive(Debug, PartialEq, Eq, PartialOrd, Ord, Hash, Copy, Clone, Structural)]
pub enum ActionName {
    NoAction,
    FastBlade,
    FightOrFlight,
    RiotBlade,
    CircleOfScorn,
    GoringBlade,
    RoyalAuthority,
    HolySpirit,
    Requiescat,
    Intervene,
    Atonement,
    Confiteor,
    Expiacion,
    BladeOfFaith,
    BladeOfTruth,
    BladeOfValor,
}

/// Which timers gate an action.
#[derive(Debug, PartialEq, Eq, Hash, Copy, Clone, Structural)]
pub enum CooldownType {
    /// Gated by the shared cooldown only.
    Global,
    /// Gated by the shared cooldown and by its own charges.
    GlobalStandalone,
    /// Gated by its own charges only.
    OffGlobal,
}

/// Static properties of one action.
#[derive(Debug, PartialEq, Eq, Hash, Copy, Clone, Structural)]
pub struct Action {
    pub name: ActionName,
    pub cooldown_type: CooldownType,
    pub cast: u32,
    pub recast: u32,
    pub max_duration: u32,
    pub max_count: u32,
    pub mp_cost: u32,
    pub mp_restore: u32,
    pub potency: u32,
    pub secondary_potency: u32,
    pub tertiary_potency: u32,
    pub max_charges: u32,
}

impl BasicCombo {
    /// Position of the stage in declaration order.
    pub open spec fn ordinal(self) -> nat {
        match self {
            BasicCombo::Idle => 0,
            BasicCombo::FastBlade => 1,
            BasicCombo::RiotBlade => 2,
        }
    }

    /// The position as a number.
    pub fn code(self) -> (r: u32)
        ensures
            r == self.ordinal(),
    {
        match self {
            BasicCombo::Idle => 0,
            BasicCombo::FastBlade => 1,
            BasicCombo::RiotBlade => 2,
        }
    }
}

impl BladeCombo {
    /// Position of the stage in declaration order.
    pub open spec fn ordinal(self) -> nat {
        match self {
            BladeCombo::Idle => 0,
            BladeCombo::Confiteor => 1,
            BladeCombo::BladeOfFaith => 2,
            BladeCombo::BladeOfTruth => 3,
        }
    }

    /// The position as a number.
    pub fn code(self) -> (r: u32)
        ensures
            r == self.ordinal(),
    {
        match self {
            BladeCombo::Idle => 0,
            BladeCombo::Confiteor => 1,
            BladeCombo::BladeOfFaith => 2,
            BladeCombo::BladeOfTruth => 3,
        }
    }
}

impl DivineMight {
    /// Position of the flag in declaration order.
    pub open spec fn ordinal(self) -> nat {
        match self {
            DivineMight::Idle => 0,
            DivineMight::Ready => 1,
        }
    }

    /// The position as a number.
    pub fn code(self) -> (r: u32)
        ensures
            r == self.ordinal(),
    {
        match self {
            DivineMight::Idle => 0,
            DivineMight::Ready => 1,
        }
    }
}

impl Confiteor {
    /// Position of the flag in declaration order.
    pub open spec fn ordinal(self) -> nat {
        match self {
            Confiteor::Idle => 0,
            Confiteor::Ready => 1,
        }
    }

    /// The position as a number.
    pub fn code(self) -> (r: u32)
        ensures
            r == self.ordinal(),
    {
        match self {
            Confiteor::Idle => 0,
            Confiteor::Ready => 1,
        }
    }
}

impl ActionName {
    /// Position of the identifier in declaration order; the key under which
    /// its entry is stored in a table.
    pub open spec fn slot(self) -> u8 {
        match self {
            ActionName::NoAction => 0,
            ActionName::FastBlade => 1,
            ActionName::FightOrFlight => 2,
            ActionName::RiotBlade => 3,
            ActionName::CircleOfScorn => 4,
            ActionName::GoringBlade => 5,
            ActionName::RoyalAuthority => 6,
            ActionName::HolySpirit => 7,
            ActionName::Requiescat => 8,
            ActionName::Intervene => 9,
            ActionName::Atonement => 10,
            ActionName::Confiteor => 11,
            ActionName::Expiacion => 12,
            ActionName::BladeOfFaith => 13,
            ActionName::BladeOfTruth => 14,
            ActionName::BladeOfValor => 15,
        }
    }

    /// The identifier stored at a slot, for slots below `ACTION_COUNT`.
    pub open spec fn at_slot(i: u8) -> ActionName {
        if i == 1 {
            ActionName::FastBlade
        } else if i == 2 {
            ActionName::FightOrFlight
        } else if i == 3 {
            ActionName::RiotBlade
        } else if i == 4 {
            ActionName::CircleOfScorn
        } else if i == 5 {
            ActionName::GoringBlade
        } else if i == 6 {
            ActionName::RoyalAuthority
        } else if i == 7 {
            ActionName::HolySpirit
        } else if i == 8 {
            ActionName::Requiescat
        } else if i == 9 {
            ActionName::Intervene
        } else if i == 10 {
            ActionName::Atonement
        } else if i == 11 {
            ActionName::Confiteor
        } else if i == 12 {
            ActionName::Expiacion
        } else if i == 13 {
            ActionName::BladeOfFaith
        } else if i == 14 {
            ActionName::BladeOfTruth
        } else if i == 15 {
            ActionName::BladeOfValor
        } else {
            ActionName::NoAction
        }
    }

    /// Slots and identifiers correspond one to one.
    pub proof fn lemma_slots(self)
        ensures
            self.slot() < ACTION_COUNT,
            ActionName::at_slot(self.slot()) == self,
    {
    }

    /// Every slot below `ACTION_COUNT` holds the identifier that maps to it.
    pub proof fn lemma_at_slot(i: u8)
        requires
            i < ACTION_COUNT,
        ensures
            ActionName::at_slot(i).slot() == i,
    {
    }

    /// The slot of this identifier.
    pub fn index(self) -> (r: u8)
        ensures
            r == self.slot(),
            r < ACTION_COUNT,
    {
        match self {
            ActionName::NoAction => 0,
            ActionName::FastBlade => 1,
            ActionName::FightOrFlight => 2,
            ActionName::RiotBlade => 3,
            ActionName::CircleOfScorn => 4,
            ActionName::GoringBlade => 5,
            ActionName::RoyalAuthority => 6,
            ActionName::HolySpirit => 7,
            ActionName::Requiescat => 8,
            ActionName::Intervene => 9,
            ActionName::Atonement => 10,
            ActionName::Confiteor => 11,
            ActionName::Expiacion => 12,
            ActionName::BladeOfFaith => 13,
            ActionName::BladeOfTruth => 14,
            ActionName::BladeOfValor => 15,
        }
    }

    /// The identifier at slot `i`, or `None` where `i` is no slot.
    pub fn from_index(i: u8) -> (r: Option<ActionName>)
        ensures
            r == (if i < ACTION_COUNT {
                Some(ActionName::at_slot(i))
            } else {
                None
            }),
    {
        match i {
            0 => Some(ActionName::NoAction),
            1 => Some(ActionName::FastBlade),
            2 => Some(ActionName::FightOrFlight),
            3 => Some(ActionName::RiotBlade),
            4 => Some(ActionName::CircleOfScorn),
            5 => Some(ActionName::GoringBlade),
            6 => Some(ActionName::RoyalAuthority),
            7 => Some(ActionName::HolySpirit),
            8 => Some(ActionName::Requiescat),
            9 => Some(ActionName::Intervene),
            10 => Some(ActionName::Atonement),
            11 => Some(ActionName::Confiteor),
            12 => Some(ActionName::Expiacion),
            13 => Some(ActionName::BladeOfFaith),
            14 => Some(ActionName::BladeOfTruth),
            15 => Some(ActionName::BladeOfValor),
            _ => None,
        }
    }
}

impl CooldownType {
    /// Whether using the action restarts the shared cooldown and must wait
    /// for it.
    pub open spec fn shares_global(self) -> bool {
        self != CooldownType::OffGlobal
    }

    /// Whether exhausted charges make the action wait for its own cooldown.
    pub open spec fn charge_gated(self) -> bool {
        self != CooldownType::Global
    }
}

} // verus!
