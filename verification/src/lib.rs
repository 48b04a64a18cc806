//! Rotation search: a timed-action state machine for one combatant and a
//! best-first search for the highest-scoring action sequence within a time
//! horizon.
//!
//! `names` holds the identifiers and the static description of an action,
//! `table` the catalog and the status table, `status` and `model` the
//! passage of time, `rules` and `effects` the transition made by one
//! action, `player` the state that programs hold, `fingerprint`, `order`,
//! `dedup` and `frontier` the parts of the search, `search` the search
//! itself and `sequence` the replay of a given list of actions.

pub mod dedup;
pub mod effects;
pub mod fingerprint;
pub mod frontier;
pub mod model;
pub mod names;
pub mod order;
pub mod player;
pub mod rules;
pub mod search;
pub mod sequence;
pub mod status;
pub mod table;
pub mod wide;

pub use fingerprint::calculate_hash;
pub use names::{
    Action, ActionName, BasicCombo, BladeCombo, Confiteor, CooldownType, DivineMight,
};
pub use player::Player;
pub use rules::ActionApplyError;
pub use search::{search, search_within, Search, SearchOutcome};
pub use sequence::play_sequence;
pub use status::{sub_to_zero, ActionStatus};
pub use table::Catalog;
