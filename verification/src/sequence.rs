//! Replaying a given list of actions from the initial state.

use vstd::prelude::*;
use crate::model::PlayerModel;
use crate::names::{Action, ActionName, MP_CAP};
use crate::player::Player;
use crate::rules::{most_gain, ActionApplyError};
use crate::table::{catalog_ok, Catalog};

verus! {

/// Why a replay stopped.
#[derive(Debug, PartialEq, Eq, Copy, Clone, Structural)]
pub enum PlayStop {
    /// The transition rejected the action.
    Rejected(ActionApplyError),
    /// The score might not fit 32 bits after the action.
    ScoreFull,
}

/// Where and why a replay stopped.
#[derive(Debug, PartialEq, Eq, Copy, Clone, Structural)]
pub struct PlayError {
    /// Position of the action that could not be applied.
    pub at: usize,
    pub stop: PlayStop,
}

/// One step of a replay: the state after action `a`, or why there is none.
pub open spec fn play_step(
    s: PlayerModel,
    a: ActionName,
    cat: Map<ActionName, Action>,
    horizon: nat,
) -> Result<PlayerModel, PlayStop> {
    if s.damage + most_gain(cat[a]) > u32::MAX {
        Err(PlayStop::ScoreFull)
    } else {
        match s.apply(a, cat, horizon) {
            Ok(next) => Ok(next),
            Err(e) => Err(PlayStop::Rejected(e)),
        }
    }
}

/// The state after the first `k` of `actions` were applied to `s` in order,
/// or the position and the reason of the first failure among them.
pub open spec fn play(
    s: PlayerModel,
    actions: Seq<ActionName>,
    cat: Map<ActionName, Action>,
    horizon: nat,
    k: nat,
) -> Result<PlayerModel, (nat, PlayStop)>
    decreases k,
{
    if k == 0 {
        Ok(s)
    } else {
        match play(s, actions, cat, horizon, (k - 1) as nat) {
            Err(e) => Err(e),
            Ok(prev) => match play_step(prev, actions[k - 1], cat, horizon) {
                Ok(next) => Ok(next),
                Err(stop) => Err(((k - 1) as nat, stop)),
            },
        }
    }
}

/// Every state that a replay reaches from a state that satisfies the
/// invariant satisfies it too: the pool is within its cap and no action has
/// more charges than its maximum. Along the way the clock never runs back
/// and stays within the horizon, and the score never goes down.
pub proof fn lemma_play_keeps(
    s: PlayerModel,
    actions: Seq<ActionName>,
    cat: Map<ActionName, Action>,
    horizon: nat,
    k: nat,
)
    requires
        catalog_ok(cat),
        s.wf(cat),
        play(s, actions, cat, horizon, k) is Ok,
    ensures
        ({
            let end = play(s, actions, cat, horizon, k)->Ok_0;
            &&& end.wf(cat)
            &&& end.mp <= MP_CAP
            &&& forall|n: ActionName| (#[trigger] end.status[n]).charges <= cat[n].max_charges
            &&& s.time <= end.time
            &&& k > 0 ==> end.time <= horizon
            &&& s.damage <= end.damage
        }),
    decreases k,
{
    if k > 0 {
        lemma_play_keeps(s, actions, cat, horizon, (k - 1) as nat);
        let prev = play(s, actions, cat, horizon, (k - 1) as nat)->Ok_0;
        prev.lemma_apply_keeps(actions[k - 1], cat, horizon);
    }
    let end = play(s, actions, cat, horizon, k)->Ok_0;
    assert forall|n: ActionName| (#[trigger] end.status[n]).charges <= cat[n].max_charges by {
        assert(crate::model::status_ok(end.status[n], cat[n], end.global_cooldown));
    }
}

/// A failure among the first `k` actions is the outcome of every longer
/// replay.
pub proof fn lemma_play_stops(
    s: PlayerModel,
    actions: Seq<ActionName>,
    cat: Map<ActionName, Action>,
    horizon: nat,
    k: nat,
    m: nat,
)
    requires
        play(s, actions, cat, horizon, k) is Err,
        k <= m,
    ensures
        play(s, actions, cat, horizon, m) == play(s, actions, cat, horizon, k),
    decreases m,
{
    if k < m {
        lemma_play_stops(s, actions, cat, horizon, k, (m - 1) as nat);
    }
}

/// Applies `actions` in order, starting from the initial state of the
/// catalog. Returns the state after each action, or the position and the
/// reason of the first action that could not be applied.
pub fn play_sequence(actions_map: &Catalog, actions: &Vec<ActionName>, horizon: u32) -> (r: Result<
    Vec<Player>,
    PlayError,
>)
    requires
        catalog_ok(actions_map@),
    ensures
        match r {
            Ok(states) => {
                &&& states.len() == actions.len()
                &&& forall|k: int|
                    0 <= k < states.len() ==> play(
                        PlayerModel::initial(actions_map@),
                        actions@,
                        actions_map@,
                        horizon as nat,
                        (k + 1) as nat,
                    ) == Ok::<PlayerModel, (nat, PlayStop)>((#[trigger] states[k])@)
            },
            Err(e) => play(
                PlayerModel::initial(actions_map@),
                actions@,
                actions_map@,
                horizon as nat,
                actions.len() as nat,
            ) == Err::<PlayerModel, (nat, PlayStop)>((e.at as nat, e.stop)),
        },
{
    let mut player = Player::default();
    player.assign_actions(actions_map);
    let ghost root = PlayerModel::initial(actions_map@);
    let ghost cat = actions_map@;
    proof {
        PlayerModel::lemma_initial_wf(cat);
    }
    let mut states: Vec<Player> = Vec::new();
    let mut i: usize = 0;
    while i < actions.len()
        invariant
            i <= actions.len(),
            cat == actions_map@,
            catalog_ok(cat),
            root == PlayerModel::initial(cat),
            player@.wf(cat),
            states.len() == i,
            play(root, actions@, cat, horizon as nat, i as nat) == Ok::<
                PlayerModel,
                (nat, PlayStop),
            >(player@),
            forall|k: int|
                0 <= k < i ==> play(root, actions@, cat, horizon as nat, (k + 1) as nat) == Ok::<
                    PlayerModel,
                    (nat, PlayStop),
                >((#[trigger] states[k])@),
        decreases actions.len() - i,
    {
        let name = actions[i];
        let action = actions_map.get(name);
        if !player.has_room_for(&action) {
            proof {
                lemma_play_stops(
                    root,
                    actions@,
                    cat,
                    horizon as nat,
                    (i + 1) as nat,
                    actions.len() as nat,
                );
            }
            return Err(PlayError { at: i, stop: PlayStop::ScoreFull });
        }
        match player.apply_action(&name, actions_map, horizon) {
            Ok(next) => {
                states.push(next.clone());
                player = next;
            },
            Err(e) => {
                proof {
                    lemma_play_stops(
                        root,
                        actions@,
                        cat,
                        horizon as nat,
                        (i + 1) as nat,
                        actions.len() as nat,
                    );
                }
                return Err(PlayError { at: i, stop: PlayStop::Rejected(e) });
            },
        }
        i += 1;
    }
    Ok(states)
}

} // verus!
