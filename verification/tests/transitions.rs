use rotation_search::effects::{rule_for, Bonus, Needs, Pick};
use rotation_search::names::ActionName as N;
use rotation_search::names::CooldownType::{Global, GlobalStandalone, OffGlobal};
use rotation_search::names::{
    Action, ActionName, BasicCombo, BladeCombo, Confiteor, CooldownType, DivineMight,
    ANIMATION_LOCK, GLOBAL_COOLDOWN, MP_CAP,
};
use rotation_search::player::Player;
use rotation_search::rules::ActionApplyError;
use rotation_search::sequence::{play_sequence, PlayError, PlayStop};
use rotation_search::status::{sub_to_zero, ActionStatus};
use rotation_search::table::Catalog;

const FAR: u32 = u32::MAX;

#[allow(clippy::too_many_arguments)]
fn act(
    name: ActionName,
    cooldown_type: CooldownType,
    cast: u32,
    recast: u32,
    max_duration: u32,
    max_count: u32,
    mp_cost: u32,
    mp_restore: u32,
    potency: u32,
    secondary_potency: u32,
    tertiary_potency: u32,
    max_charges: u32,
) -> Action {
    Action {
        name,
        cooldown_type,
        cast,
        recast,
        max_duration,
        max_count,
        mp_cost,
        mp_restore,
        potency,
        secondary_potency,
        tertiary_potency,
        max_charges,
    }
}

fn paladin() -> Catalog {
    let lock = ANIMATION_LOCK;
    let gcd = GLOBAL_COOLDOWN;
    let mut c = Catalog::uniform(act(N::FastBlade, Global, lock, gcd, 0, 0, 0, 0, 0, 0, 0, 1));
    c.assign(N::FastBlade, act(N::FastBlade, Global, lock, gcd, 0, 0, 0, 0, 2000, 0, 0, 1));
    c.assign(N::FightOrFlight, act(N::FightOrFlight, OffGlobal, lock, 60000, 20000, 0, 0, 0, 0, 0, 0, 1));
    c.assign(N::RiotBlade, act(N::RiotBlade, Global, lock, gcd, 0, 0, 0, 1000, 1200, 2800, 0, 1));
    c.assign(N::CircleOfScorn, act(N::CircleOfScorn, OffGlobal, lock, 30000, 0, 0, 0, 0, 2500, 0, 0, 1));
    c.assign(N::GoringBlade, act(N::GoringBlade, GlobalStandalone, lock, 60000, 0, 0, 0, 0, 7000, 0, 0, 1));
    c.assign(N::RoyalAuthority, act(N::RoyalAuthority, Global, lock, gcd, 0, 0, 0, 0, 1200, 3800, 0, 1));
    c.assign(N::HolySpirit, act(N::HolySpirit, Global, 1500, gcd, 0, 0, 1000, 0, 3000, 4500, 6500, 1));
    c.assign(N::Requiescat, act(N::Requiescat, OffGlobal, lock, 60000, 30000, 4, 0, 0, 3000, 0, 0, 1));
    c.assign(N::Intervene, act(N::Intervene, OffGlobal, lock, 30000, 0, 0, 0, 0, 1500, 0, 0, 2));
    c.assign(N::Atonement, act(N::Atonement, Global, lock, gcd, 30000, 3, 0, 400, 3800, 0, 0, 1));
    c.assign(N::Confiteor, act(N::Confiteor, Global, lock, gcd, 0, 0, 1000, 0, 4000, 9000, 0, 1));
    c.assign(N::Expiacion, act(N::Expiacion, OffGlobal, lock, 30000, 0, 0, 0, 500, 4500, 0, 0, 1));
    c.assign(N::BladeOfFaith, act(N::BladeOfFaith, Global, lock, gcd, 0, 0, 1000, 0, 2000, 7000, 0, 1));
    c.assign(N::BladeOfTruth, act(N::BladeOfTruth, Global, lock, gcd, 0, 0, 1000, 0, 3000, 8000, 0, 1));
    c.assign(N::BladeOfValor, act(N::BladeOfValor, Global, lock, gcd, 0, 0, 1000, 0, 4000, 9000, 0, 1));
    c
}

fn opening(c: &Catalog) -> Player {
    let mut p = Player::default();
    p.assign_actions(c);
    p
}

fn run(c: &Catalog, actions: &[ActionName]) -> Player {
    let mut p = opening(c);
    for a in actions {
        assert!(p.is_wf(c));
        assert!(p.has_room_for(&c.get(*a)));
        p = p.apply_action(a, c, FAR).unwrap();
    }
    p
}

fn status(cooldown: u32, duration: u32, charges: u32, count: u32) -> ActionStatus {
    ActionStatus { name: ActionName::NoAction, cooldown, duration, charges, count }
}

#[test]
fn sub_to_zero_floors() {
    assert_eq!(sub_to_zero(5, 3), 2);
    assert_eq!(sub_to_zero(3, 3), 0);
    assert_eq!(sub_to_zero(3, 5), 0);
    assert_eq!(sub_to_zero(0, 0), 0);
    assert_eq!(sub_to_zero(u32::MAX, 1), u32::MAX - 1);
}

#[test]
fn status_default_is_blank() {
    assert_eq!(ActionStatus::default(), status(0, 0, 0, 0));
}

#[test]
fn status_tick_runs_cooldown_down() {
    let c = paladin();
    let a = c.get(ActionName::Intervene);
    let mut st = status(10000, 0, 1, 0);
    st.tick(4000, &a);
    assert_eq!(st, status(6000, 0, 1, 0));
}

#[test]
fn status_tick_awards_charges() {
    let c = paladin();
    let a = c.get(ActionName::Intervene);
    let mut st = status(10000, 0, 0, 0);
    st.tick(25000, &a);
    assert_eq!(st, status(15000, 0, 1, 0));
    let mut st = status(10000, 0, 0, 0);
    st.tick(45000, &a);
    assert_eq!(st, status(0, 0, 2, 0));
    let mut st = status(10000, 0, 0, 0);
    st.tick(10000, &a);
    assert_eq!(st, status(30000, 0, 1, 0));
}

#[test]
fn status_tick_leaves_full_action_alone() {
    let c = paladin();
    let a = c.get(ActionName::Intervene);
    let mut st = status(0, 0, 2, 0);
    st.tick(100000, &a);
    assert_eq!(st, status(0, 0, 2, 0));
}

#[test]
fn status_tick_of_nothing_changes_nothing() {
    let c = paladin();
    let a = c.get(ActionName::Intervene);
    let mut st = status(0, 7, 0, 2);
    st.tick(0, &a);
    assert_eq!(st, status(0, 7, 0, 2));
}

#[test]
fn status_tick_drops_free_uses_with_the_effect() {
    let c = paladin();
    let a = c.get(ActionName::Requiescat);
    let mut st = status(0, 5000, 1, 3);
    st.tick(4999, &a);
    assert_eq!(st, status(0, 1, 1, 3));
    st.tick(1, &a);
    assert_eq!(st, status(0, 0, 1, 0));
}

#[test]
fn status_tick_splits() {
    let c = paladin();
    let a = c.get(ActionName::Intervene);
    let starts = [status(10000, 9000, 0, 2), status(1, 1, 1, 1), status(30000, 0, 0, 0)];
    let parts = [(0, 0), (0, 7), (9999, 1), (10000, 0), (10000, 30000), (12345, 54321), (1, 80000)];
    for start in starts {
        for (x, y) in parts {
            let mut twice = start;
            twice.tick(x, &a);
            twice.tick(y, &a);
            let mut once = start;
            once.tick(x + y, &a);
            assert_eq!(twice, once);
        }
    }
}

#[test]
fn default_player_is_fresh() {
    let p = Player::default();
    assert_eq!(p.time(), 0);
    assert_eq!(p.mp(), 10000);
    assert_eq!(p.damage(), 0);
    assert_eq!(p.global_cooldown(), 0);
    assert_eq!(p.basic_combo(), BasicCombo::Idle);
    assert_eq!(p.blade_combo(), BladeCombo::Idle);
    assert_eq!(p.divine_might(), DivineMight::Idle);
    assert_eq!(p.confiteor(), Confiteor::Idle);
    assert_eq!(p.status(ActionName::Intervene), status(0, 0, 0, 0));
}

#[test]
fn assign_actions_fills_charges() {
    let c = paladin();
    let p = opening(&c);
    assert_eq!(p.status(ActionName::Intervene), status(0, 0, 2, 0));
    assert_eq!(p.status(ActionName::FastBlade), status(0, 0, 1, 0));
    assert!(p.is_wf(&c));
    assert!(!Player::default().is_wf(&c));
}

#[test]
fn catalog_validity() {
    let c = paladin();
    assert!(c.is_valid());
    let mut no_charge = paladin();
    let mut a = no_charge.get(ActionName::Expiacion);
    a.max_charges = 0;
    no_charge.assign(ActionName::Expiacion, a);
    assert!(!no_charge.is_valid());
    let mut no_recast = paladin();
    let mut a = no_recast.get(ActionName::Expiacion);
    a.recast = 0;
    no_recast.assign(ActionName::Expiacion, a);
    assert!(!no_recast.is_valid());
    let mut slow = paladin();
    let mut a = slow.get(ActionName::FastBlade);
    a.recast = GLOBAL_COOLDOWN + 1;
    slow.assign(ActionName::FastBlade, a);
    assert!(!slow.is_valid());
}

#[test]
fn catalog_assign_touches_one_entry() {
    let mut c = paladin();
    let before = c.get(ActionName::RiotBlade);
    let mut a = c.get(ActionName::FastBlade);
    a.potency = 1;
    c.assign(ActionName::FastBlade, a);
    assert_eq!(c.get(ActionName::FastBlade).potency, 1);
    assert_eq!(c.get(ActionName::RiotBlade), before);
}

#[test]
fn action_name_slots_round_trip() {
    for i in 0..16u8 {
        let n = ActionName::from_index(i).unwrap();
        assert_eq!(n.index(), i);
    }
    assert_eq!(ActionName::from_index(16), None);
    assert_eq!(ActionName::from_index(255), None);
    assert_eq!(ActionName::NoAction.index(), 0);
    assert_eq!(ActionName::BladeOfValor.index(), 15);
}

#[test]
fn recover_mp_clamps() {
    let c = paladin();
    let mut p = run(&c, &[ActionName::HolySpirit]);
    assert_eq!(p.mp(), 9000);
    p.recover_mp(300);
    assert_eq!(p.mp(), 9300);
    p.recover_mp(700);
    assert_eq!(p.mp(), 10000);
    p.recover_mp(u32::MAX);
    assert_eq!(p.mp(), 10000);
}

#[test]
fn player_tick_regenerates_at_boundaries() {
    let c = paladin();
    let mut p = run(&c, &[ActionName::HolySpirit]);
    assert_eq!((p.time(), p.mp(), p.global_cooldown()), (1500, 9000, 1000));
    p.tick(1499, &c);
    assert_eq!((p.time(), p.mp(), p.global_cooldown()), (2999, 9000, 0));
    p.tick(1, &c);
    assert_eq!((p.time(), p.mp()), (3000, 9200));
    p.tick(6000, &c);
    assert_eq!((p.time(), p.mp()), (9000, 9600));
    p.tick(30000, &c);
    assert_eq!((p.time(), p.mp()), (39000, 10000));
}

#[test]
fn player_tick_splits() {
    let c = paladin();
    let parts = [(0, 0), (1499, 1), (1500, 1500), (700, 59300), (2999, 3001), (17, 100000)];
    for (x, y) in parts {
        let start = run(&c, &[ActionName::HolySpirit, ActionName::Intervene, ActionName::Requiescat]);
        let mut twice = start.clone();
        twice.tick(x, &c);
        twice.tick(y, &c);
        let mut once = start.clone();
        once.tick(x + y, &c);
        assert_eq!(twice, once);
    }
}

#[test]
fn hit_scales_under_the_buff() {
    let c = paladin();
    let mut plain = opening(&c);
    plain.hit(1003);
    assert_eq!(plain.damage(), 1003);
    let mut buffed = run(&c, &[ActionName::FightOrFlight]);
    buffed.hit(1003);
    assert_eq!(buffed.damage(), 1250);
    buffed.hit(3);
    assert_eq!(buffed.damage(), 1250);
}

#[test]
fn has_room_for_guards_the_score() {
    let c = paladin();
    let p = opening(&c).with_damage(u32::MAX - 2500);
    assert!(p.has_room_for(&c.get(ActionName::FastBlade)));
    let p = opening(&c).with_damage(u32::MAX - 2499);
    assert!(!p.has_room_for(&c.get(ActionName::FastBlade)));
}

#[test]
fn opener_then_follow_up_takes_the_combo_value() {
    let c = paladin();
    let first = run(&c, &[ActionName::FastBlade]);
    assert_eq!(first.damage(), 2000);
    assert_eq!(first.time(), 800);
    assert_eq!(first.global_cooldown(), 1700);
    assert_eq!(first.basic_combo(), BasicCombo::FastBlade);
    assert_eq!(first.status(ActionName::FastBlade), status(1700, 0, 0, 0));

    let second = first.apply_action(&ActionName::RiotBlade, &c, FAR).unwrap();
    assert_eq!(second.damage(), 2000 + 2800);
    assert_eq!(second.time(), 3300);
    assert_eq!(second.mp(), 10000);
    assert_eq!(second.basic_combo(), BasicCombo::RiotBlade);
    assert_eq!(second.status(ActionName::FastBlade), status(0, 0, 1, 0));

    let third = second.apply_action(&ActionName::RiotBlade, &c, FAR).unwrap();
    assert_eq!(third.damage(), 2000 + 2800 + 1200);
    assert_eq!(third.basic_combo(), BasicCombo::Idle);
}

#[test]
fn follow_up_without_opener_takes_the_base_value() {
    let c = paladin();
    let p = run(&c, &[ActionName::RiotBlade]);
    assert_eq!(p.damage(), 1200);
    assert_eq!(p.basic_combo(), BasicCombo::Idle);
    let p = run(&c, &[ActionName::FastBlade, ActionName::HolySpirit, ActionName::RiotBlade]);
    assert_eq!(p.damage(), 2000 + 3000 + 2800);
}

#[test]
fn full_basic_combo_seeds_atonement() {
    let c = paladin();
    let p = run(&c, &[ActionName::FastBlade, ActionName::RiotBlade, ActionName::RoyalAuthority]);
    assert_eq!(p.damage(), 2000 + 2800 + 3800);
    assert_eq!(p.time(), 5800);
    assert_eq!(p.basic_combo(), BasicCombo::Idle);
    assert_eq!(p.divine_might(), DivineMight::Ready);
    assert_eq!(p.status(ActionName::Atonement), status(0, 30000 - 800, 1, 3));

    let q = p.apply_action(&ActionName::Atonement, &c, FAR).unwrap();
    assert_eq!(q.damage(), 8600 + 3800);
    assert_eq!(q.status(ActionName::Atonement).count, 2);

    let h = p.apply_action(&ActionName::HolySpirit, &c, FAR).unwrap();
    assert_eq!(h.damage(), 8600 + 4500);
    assert_eq!(h.divine_might(), DivineMight::Idle);
    assert_eq!(h.time(), 5800 + 1700 + 800);
    assert_eq!(h.mp(), 9000);
}

#[test]
fn royal_authority_alone_seeds_nothing() {
    let c = paladin();
    let p = run(&c, &[ActionName::RoyalAuthority]);
    assert_eq!(p.damage(), 1200);
    assert_eq!(p.divine_might(), DivineMight::Idle);
    assert_eq!(p.status(ActionName::Atonement).count, 0);
}

#[test]
fn requiescat_opens_the_blade_chain() {
    let c = paladin();
    let p = run(&c, &[ActionName::Requiescat]);
    assert_eq!(p.damage(), 3000);
    assert_eq!(p.confiteor(), Confiteor::Ready);
    assert_eq!(p.status(ActionName::Requiescat), status(60000 - 800, 30000 - 800, 0, 4));

    let p = run(
        &c,
        &[
            ActionName::Requiescat,
            ActionName::Confiteor,
            ActionName::BladeOfFaith,
            ActionName::BladeOfTruth,
            ActionName::BladeOfValor,
            ActionName::HolySpirit,
        ],
    );
    assert_eq!(p.damage(), 3000 + 9000 + 7000 + 8000 + 9000 + 3000);
    assert_eq!(p.blade_combo(), BladeCombo::Idle);
    assert_eq!(p.confiteor(), Confiteor::Idle);
    assert_eq!(p.status(ActionName::Requiescat).count, 0);
    assert_eq!(p.mp(), 10000 - 5000 + 800);
}

#[test]
fn holy_spirit_takes_a_free_use() {
    let c = paladin();
    let p = run(&c, &[ActionName::Requiescat, ActionName::HolySpirit]);
    assert_eq!(p.damage(), 3000 + 6500);
    assert_eq!(p.status(ActionName::Requiescat).count, 3);
    assert_eq!(p.time(), 800 + 800);
}

#[test]
fn blade_of_truth_out_of_chain_takes_the_base_value() {
    let c = paladin();
    let p = run(&c, &[ActionName::BladeOfTruth]);
    assert_eq!(p.damage(), 3000);
    assert_eq!(p.blade_combo(), BladeCombo::Idle);
    assert_eq!(p.mp(), 9000);
}

#[test]
fn buff_scales_the_action_score() {
    let c = paladin();
    let p = run(&c, &[ActionName::FightOrFlight, ActionName::FastBlade]);
    assert_eq!(p.damage(), 2500);
    assert_eq!(p.time(), 1600);
    assert_eq!(p.status(ActionName::FightOrFlight), status(60000 - 1600, 20000 - 1600, 0, 0));
}

#[test]
fn charges_are_spent_and_gate_the_action() {
    let c = paladin();
    let p = run(&c, &[ActionName::Intervene]);
    assert_eq!(p.status(ActionName::Intervene), status(30000 - 800, 0, 1, 0));
    assert_eq!(p.global_cooldown(), 0);
    let p = p.apply_action(&ActionName::Intervene, &c, FAR).unwrap();
    assert_eq!(p.status(ActionName::Intervene), status(30000 - 800, 0, 0, 0));
    assert_eq!(p.damage(), 3000);
    let r = p.apply_action(&ActionName::Intervene, &c, FAR);
    assert_eq!(r.unwrap_err(), ActionApplyError::WaitTooLong);
}

#[test]
fn insufficient_resource_fails_and_leaves_the_state() {
    let mut c = paladin();
    let mut a = c.get(ActionName::HolySpirit);
    a.mp_cost = 10001;
    c.assign(ActionName::HolySpirit, a);
    let p = opening(&c);
    let before = p.clone();
    let r = p.apply_action(&ActionName::HolySpirit, &c, FAR);
    assert_eq!(r.unwrap_err(), ActionApplyError::MpNotEnough);
    assert_eq!(p, before);
    assert_eq!(p.mp(), MP_CAP);
}

#[test]
fn resource_runs_out_after_repeated_use() {
    let c = paladin();
    let mut p = opening(&c);
    let mut casts = 0;
    loop {
        match p.apply_action(&ActionName::HolySpirit, &c, FAR) {
            Ok(next) => {
                assert!(next.mp() <= MP_CAP);
                p = next;
                casts += 1;
            }
            Err(e) => {
                assert_eq!(e, ActionApplyError::MpNotEnough);
                break;
            }
        }
        assert!(casts < 100);
    }
    assert_eq!(casts, 11);
    assert_eq!(p.mp(), 600);
    assert!(p.mp() < 1000);
}

#[test]
fn not_ready_without_prerequisite() {
    let c = paladin();
    let p = opening(&c);
    for a in [
        ActionName::Atonement,
        ActionName::Confiteor,
        ActionName::BladeOfFaith,
        ActionName::BladeOfValor,
    ] {
        assert_eq!(p.apply_action(&a, &c, FAR).unwrap_err(), ActionApplyError::NotReady);
    }
}

#[test]
fn sentinel_is_no_action() {
    let c = paladin();
    let p = opening(&c);
    let r = p.apply_action(&ActionName::NoAction, &c, FAR);
    assert_eq!(r.unwrap_err(), ActionApplyError::NoneAction);
}

#[test]
fn long_wait_is_rejected() {
    let c = paladin();
    let p = run(&c, &[ActionName::GoringBlade]);
    assert_eq!(p.damage(), 7000);
    let r = p.apply_action(&ActionName::GoringBlade, &c, FAR);
    assert_eq!(r.unwrap_err(), ActionApplyError::WaitTooLong);
}

#[test]
fn wait_past_the_horizon_is_rejected() {
    let c = paladin();
    let p = opening(&c).apply_action(&ActionName::FastBlade, &c, 1000).unwrap();
    let r = p.apply_action(&ActionName::RiotBlade, &c, 1000);
    assert_eq!(r.unwrap_err(), ActionApplyError::WaitTooLong);
    let r = p.apply_action(&ActionName::RiotBlade, &c, 2500);
    assert_eq!(r.unwrap_err(), ActionApplyError::CastOvertime);
    let r = p.apply_action(&ActionName::RiotBlade, &c, 3300);
    assert_eq!(r.unwrap().time(), 3300);
}

#[test]
fn cast_past_the_horizon_is_rejected() {
    let c = paladin();
    let p = opening(&c);
    let r = p.apply_action(&ActionName::FastBlade, &c, 799);
    assert_eq!(r.unwrap_err(), ActionApplyError::CastOvertime);
    let r = p.apply_action(&ActionName::FastBlade, &c, 800);
    assert_eq!(r.unwrap().time(), 800);
}

#[test]
fn transitions_keep_the_invariants() {
    let c = paladin();
    let order = [
        ActionName::FastBlade,
        ActionName::FightOrFlight,
        ActionName::RiotBlade,
        ActionName::Intervene,
        ActionName::RoyalAuthority,
        ActionName::Requiescat,
        ActionName::Atonement,
        ActionName::Expiacion,
        ActionName::Confiteor,
        ActionName::Intervene,
        ActionName::BladeOfFaith,
        ActionName::CircleOfScorn,
        ActionName::BladeOfTruth,
        ActionName::BladeOfValor,
        ActionName::HolySpirit,
        ActionName::GoringBlade,
    ];
    let mut p = opening(&c);
    for a in order {
        let next = p.apply_action(&a, &c, FAR).unwrap();
        assert!(next.is_wf(&c));
        assert!(next.mp() <= MP_CAP);
        assert!(next.time() >= p.time());
        assert!(next.damage() >= p.damage());
        for i in 0..16u8 {
            let n = ActionName::from_index(i).unwrap();
            assert!(next.status(n).charges <= c.get(n).max_charges);
        }
        p = next;
    }
}

#[test]
fn clone_is_equal() {
    let c = paladin();
    let p = run(&c, &[ActionName::FastBlade, ActionName::Requiescat]);
    let q = p.clone();
    assert_eq!(p, q);
    assert_eq!(q.status(ActionName::Requiescat), p.status(ActionName::Requiescat));
}

#[test]
fn play_sequence_reports_each_state() {
    let c = paladin();
    let actions = vec![ActionName::FastBlade, ActionName::RiotBlade, ActionName::RoyalAuthority];
    let states = play_sequence(&c, &actions, FAR).unwrap();
    assert_eq!(states.len(), 3);
    assert_eq!(states[0].damage(), 2000);
    assert_eq!(states[1].damage(), 4800);
    assert_eq!(states[2].damage(), 8600);
    assert_eq!(states[2].time(), 5800);
    assert_eq!(play_sequence(&c, &Vec::new(), FAR).unwrap().len(), 0);
}

#[test]
fn play_sequence_reports_the_first_failure() {
    let c = paladin();
    let actions = vec![ActionName::FastBlade, ActionName::Atonement, ActionName::NoAction];
    let e = play_sequence(&c, &actions, FAR).unwrap_err();
    assert_eq!(e, PlayError { at: 1, stop: PlayStop::Rejected(ActionApplyError::NotReady) });
    let e = play_sequence(&c, &actions, 100).unwrap_err();
    assert_eq!(e, PlayError { at: 0, stop: PlayStop::Rejected(ActionApplyError::CastOvertime) });
}

#[test]
fn play_sequence_stops_before_the_score_overflows() {
    let mut c = paladin();
    let mut a = c.get(ActionName::Intervene);
    a.potency = u32::MAX / 2;
    c.assign(ActionName::Intervene, a);
    let actions = vec![ActionName::Intervene, ActionName::Intervene];
    let e = play_sequence(&c, &actions, FAR).unwrap_err();
    assert_eq!(e, PlayError { at: 1, stop: PlayStop::ScoreFull });
}

#[test]
fn play_sequence_of_a_long_rotation() {
    let c = paladin();
    let actions = vec![
        N::FastBlade,
        N::RiotBlade,
        N::RoyalAuthority,
        N::FightOrFlight,
        N::Requiescat,
        N::GoringBlade,
        N::Expiacion,
        N::CircleOfScorn,
        N::Confiteor,
        N::Intervene,
        N::BladeOfFaith,
        N::Intervene,
        N::BladeOfTruth,
        N::BladeOfValor,
        N::HolySpirit,
        N::Atonement,
        N::Atonement,
        N::Atonement,
        N::FastBlade,
        N::RiotBlade,
        N::RoyalAuthority,
        N::Atonement,
        N::Expiacion,
        N::CircleOfScorn,
        N::Atonement,
        N::Atonement,
        N::HolySpirit,
        N::FastBlade,
        N::RiotBlade,
        N::RoyalAuthority,
        N::Atonement,
        N::Atonement,
    ];
    let states = play_sequence(&c, &actions, FAR).unwrap();
    assert_eq!(states.len(), actions.len());
    let mut time = 0;
    let mut damage = 0;
    for s in &states {
        assert!(s.time() >= time);
        assert!(s.damage() >= damage);
        assert!(s.mp() <= MP_CAP);
        assert!(s.is_wf(&c));
        time = s.time();
        damage = s.damage();
    }
    assert_eq!(states[2].damage(), 8600);
    assert_eq!(states[4].damage(), 8600 + 3750);
    assert_eq!(states[5].damage(), 8600 + 3750 + 8750);
}

#[test]
fn effect_table_of_the_basic_combo() {
    let first = rule_for(N::FastBlade);
    assert!(first.valid);
    assert_eq!(first.needs, Needs::Nothing);
    assert_eq!(first.hit.pick, Pick::Base);
    assert_eq!(first.hit.moves.basic, Some(BasicCombo::FastBlade));
    assert_eq!(first.hit.moves.blade, Some(BladeCombo::Idle));

    let second = rule_for(N::RiotBlade);
    assert_eq!(second.needs, Needs::Basic(BasicCombo::FastBlade));
    assert_eq!(second.hit.pick, Pick::Secondary);
    assert_eq!(second.hit.moves.basic, Some(BasicCombo::RiotBlade));
    let reset = second.miss.unwrap();
    assert_eq!(reset.pick, Pick::Base);
    assert_eq!(reset.moves.basic, Some(BasicCombo::Idle));
    assert_eq!(reset.moves.blade, Some(BladeCombo::Idle));

    let third = rule_for(N::RoyalAuthority);
    assert_eq!(third.needs, Needs::Basic(BasicCombo::RiotBlade));
    assert_eq!(third.hit.moves.seed, Some(N::Atonement));
    assert_eq!(third.hit.moves.might, Some(DivineMight::Ready));
    assert_eq!(third.hit.moves.basic, Some(BasicCombo::Idle));
    assert_eq!(third.miss.unwrap().moves.seed, None);
}

#[test]
fn effect_table_of_the_blade_chain() {
    let opener = rule_for(N::Requiescat);
    assert_eq!(opener.needs, Needs::Nothing);
    assert_eq!(opener.hit.moves.seed, Some(N::Requiescat));
    assert_eq!(opener.hit.moves.confiteor, Some(Confiteor::Ready));

    let upgrade = Some(Bonus { owner: N::Requiescat, pick: Pick::Secondary, instant: false });
    let confiteor = rule_for(N::Confiteor);
    assert_eq!(confiteor.needs, Needs::ConfiteorReady);
    assert_eq!(confiteor.miss, None);
    assert_eq!(confiteor.hit.bonus, upgrade);
    assert_eq!(confiteor.hit.moves.blade, Some(BladeCombo::Confiteor));
    assert_eq!(confiteor.hit.moves.confiteor, Some(Confiteor::Idle));
    assert_eq!(confiteor.hit.moves.basic, Some(BasicCombo::Idle));

    let faith = rule_for(N::BladeOfFaith);
    assert_eq!(faith.needs, Needs::Blade(BladeCombo::Confiteor));
    assert_eq!(faith.hit.moves.blade, Some(BladeCombo::BladeOfFaith));
    assert_eq!(faith.hit.bonus, upgrade);
    assert_eq!(faith.miss, None);

    let truth = rule_for(N::BladeOfTruth);
    assert_eq!(truth.needs, Needs::Blade(BladeCombo::BladeOfFaith));
    assert_eq!(truth.hit.moves.blade, Some(BladeCombo::BladeOfTruth));
    let out_of_chain = truth.miss.unwrap();
    assert_eq!(out_of_chain.moves.blade, None);
    assert_eq!(out_of_chain.bonus, None);

    let valor = rule_for(N::BladeOfValor);
    assert_eq!(valor.needs, Needs::Blade(BladeCombo::BladeOfTruth));
    assert_eq!(valor.hit.moves.blade, Some(BladeCombo::Idle));
    assert_eq!(valor.miss, None);
}

#[test]
fn effect_table_of_the_free_uses() {
    let atonement = rule_for(N::Atonement);
    assert_eq!(atonement.needs, Needs::FreeUse(N::Atonement));
    assert_eq!(atonement.miss, None);
    assert_eq!(atonement.hit.pick, Pick::Base);

    let spirit = rule_for(N::HolySpirit);
    assert_eq!(spirit.needs, Needs::Might);
    assert_eq!(spirit.hit.pick, Pick::Secondary);
    assert!(spirit.hit.instant);
    assert_eq!(spirit.hit.moves.might, Some(DivineMight::Idle));
    let unforced = spirit.miss.unwrap();
    assert_eq!(unforced.pick, Pick::Base);
    assert!(!unforced.instant);
    assert_eq!(
        unforced.bonus,
        Some(Bonus { owner: N::Requiescat, pick: Pick::Tertiary, instant: true })
    );
}

#[test]
fn effect_table_of_plain_actions_and_the_sentinel() {
    assert!(!rule_for(N::NoAction).valid);
    for n in [N::FightOrFlight, N::CircleOfScorn, N::GoringBlade, N::Intervene, N::Expiacion] {
        let r = rule_for(n);
        assert!(r.valid);
        assert_eq!(r.needs, Needs::Nothing);
        assert_eq!(r.hit.pick, Pick::Base);
        assert!(!r.hit.instant);
        assert_eq!(r.hit.bonus, None);
        assert_eq!(r.hit.moves.basic, None);
        assert_eq!(r.hit.moves.blade, None);
        assert_eq!(r.hit.moves.might, None);
        assert_eq!(r.hit.moves.confiteor, None);
        assert_eq!(r.hit.moves.seed, None);
    }
}
