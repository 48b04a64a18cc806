use std::cmp::Ordering;
use std::collections::hash_map::DefaultHasher;
use std::hash::Hasher;

use rotation_search::dedup::Dedup;
use rotation_search::fingerprint::calculate_hash;
use rotation_search::frontier::Frontier;
use rotation_search::names::ActionName as N;
use rotation_search::names::CooldownType::{Global, GlobalStandalone, OffGlobal};
use rotation_search::names::{Action, ActionName, CooldownType, ANIMATION_LOCK, GLOBAL_COOLDOWN};
use rotation_search::player::Player;
use rotation_search::search::{search, search_within, Search, MAX_TIME};
use rotation_search::sequence::play_sequence;
use rotation_search::table::Catalog;

const FAR: u32 = u32::MAX;

#[allow(clippy::too_many_arguments)]
fn act(
    name: ActionName,
    cooldown_type: CooldownType,
    cast: u32,
    recast: u32,
    max_duration: u32,
    max_count: u32,
    mp_cost: u32,
    mp_restore: u32,
    potency: u32,
    secondary_potency: u32,
    tertiary_potency: u32,
    max_charges: u32,
) -> Action {
    Action {
        name,
        cooldown_type,
        cast,
        recast,
        max_duration,
        max_count,
        mp_cost,
        mp_restore,
        potency,
        secondary_potency,
        tertiary_potency,
        max_charges,
    }
}

fn paladin() -> Catalog {
    let lock = ANIMATION_LOCK;
    let gcd = GLOBAL_COOLDOWN;
    let mut c = Catalog::uniform(act(N::FastBlade, Global, lock, gcd, 0, 0, 0, 0, 0, 0, 0, 1));
    c.assign(N::FastBlade, act(N::FastBlade, Global, lock, gcd, 0, 0, 0, 0, 2000, 0, 0, 1));
    c.assign(N::FightOrFlight, act(N::FightOrFlight, OffGlobal, lock, 60000, 20000, 0, 0, 0, 0, 0, 0, 1));
    c.assign(N::RiotBlade, act(N::RiotBlade, Global, lock, gcd, 0, 0, 0, 1000, 1200, 2800, 0, 1));
    c.assign(N::CircleOfScorn, act(N::CircleOfScorn, OffGlobal, lock, 30000, 0, 0, 0, 0, 2500, 0, 0, 1));
    c.assign(N::GoringBlade, act(N::GoringBlade, GlobalStandalone, lock, 60000, 0, 0, 0, 0, 7000, 0, 0, 1));
    c.assign(N::RoyalAuthority, act(N::RoyalAuthority, Global, lock, gcd, 0, 0, 0, 0, 1200, 3800, 0, 1));
    c.assign(N::HolySpirit, act(N::HolySpirit, Global, 1500, gcd, 0, 0, 1000, 0, 3000, 4500, 6500, 1));
    c.assign(N::Requiescat, act(N::Requiescat, OffGlobal, lock, 60000, 30000, 4, 0, 0, 3000, 0, 0, 1));
    c.assign(N::Intervene, act(N::Intervene, OffGlobal, lock, 30000, 0, 0, 0, 0, 1500, 0, 0, 2));
    c.assign(N::Atonement, act(N::Atonement, Global, lock, gcd, 30000, 3, 0, 400, 3800, 0, 0, 1));
    c.assign(N::Confiteor, act(N::Confiteor, Global, lock, gcd, 0, 0, 1000, 0, 4000, 9000, 0, 1));
    c.assign(N::Expiacion, act(N::Expiacion, OffGlobal, lock, 30000, 0, 0, 0, 500, 4500, 0, 0, 1));
    c.assign(N::BladeOfFaith, act(N::BladeOfFaith, Global, lock, gcd, 0, 0, 1000, 0, 2000, 7000, 0, 1));
    c.assign(N::BladeOfTruth, act(N::BladeOfTruth, Global, lock, gcd, 0, 0, 1000, 0, 3000, 8000, 0, 1));
    c.assign(N::BladeOfValor, act(N::BladeOfValor, Global, lock, gcd, 0, 0, 1000, 0, 4000, 9000, 0, 1));
    c
}

fn opening(c: &Catalog) -> Player {
    let mut p = Player::default();
    p.assign_actions(c);
    p
}

fn run(c: &Catalog, actions: &[ActionName]) -> Player {
    let mut p = opening(c);
    for a in actions {
        assert!(p.is_wf(c));
        assert!(p.has_room_for(&c.get(*a)));
        p = p.apply_action(a, c, FAR).unwrap();
    }
    p
}


/// A catalog in which only the two first steps of the basic combo can be
/// paid for.
fn two_blades() -> Catalog {
    let mut c = paladin();
    for i in 1..16u8 {
        let n = ActionName::from_index(i).unwrap();
        if n != N::FastBlade && n != N::RiotBlade {
            let mut a = c.get(n);
            a.mp_cost = 20000;
            c.assign(n, a);
        }
    }
    c
}

#[test]
fn dedup_records_new_fingerprints() {
    let mut t = Dedup::new();
    assert_eq!(t.len(), 0);
    assert_eq!(t.best(7), None);
    assert_eq!(t.link(7), None);
    assert!(t.offer(7, 100, 3, N::FastBlade));
    assert_eq!(t.len(), 1);
    assert_eq!(t.best(7), Some(100));
    assert_eq!(t.link(7), Some((3, N::FastBlade)));
}

#[test]
fn dedup_keeps_the_higher_score() {
    let mut t = Dedup::new();
    assert!(t.offer(7, 100, 3, N::FastBlade));
    assert!(!t.offer(7, 150, 4, N::RiotBlade));
    assert_eq!(t.best(7), Some(150));
    assert_eq!(t.link(7), Some((4, N::RiotBlade)));
    assert_eq!(t.len(), 1);
}

#[test]
fn dedup_never_regresses() {
    let mut t = Dedup::new();
    assert!(t.offer(7, 100, 3, N::FastBlade));
    assert!(!t.offer(7, 100, 4, N::RiotBlade));
    assert_eq!(t.best(7), Some(100));
    assert_eq!(t.link(7), Some((3, N::FastBlade)));
    assert!(!t.offer(7, 99, 5, N::HolySpirit));
    assert!(!t.offer(7, 0, 5, N::HolySpirit));
    assert_eq!(t.best(7), Some(100));
    assert_eq!(t.link(7), Some((3, N::FastBlade)));
    assert!(t.offer(8, 1, 7, N::HolySpirit));
    assert_eq!(t.best(7), Some(100));
    assert_eq!(t.len(), 2);
}

#[test]
fn dedup_route_walks_back_to_the_root() {
    let mut t = Dedup::new();
    t.offer(10, 0, 0, N::NoAction);
    t.offer(11, 5, 10, N::FastBlade);
    t.offer(12, 9, 11, N::RiotBlade);
    t.offer(13, 9, 11, N::HolySpirit);
    assert_eq!(t.route(12), vec![N::FastBlade, N::RiotBlade]);
    assert_eq!(t.route(13), vec![N::FastBlade, N::HolySpirit]);
    assert_eq!(t.route(11), vec![N::FastBlade]);
    assert_eq!(t.route(10), Vec::<ActionName>::new());
    assert_eq!(t.route(99), Vec::<ActionName>::new());
}

#[test]
fn dedup_route_ends_on_a_cycle() {
    let mut t = Dedup::new();
    t.offer(1, 5, 2, N::FastBlade);
    t.offer(2, 9, 1, N::RiotBlade);
    assert_eq!(t.route(1), vec![N::RiotBlade, N::FastBlade]);
    let mut own = Dedup::new();
    own.offer(1, 5, 1, N::FastBlade);
    assert_eq!(own.route(1), vec![N::FastBlade]);
}

#[test]
fn fingerprint_hashes_the_canonical_bytes() {
    let c = paladin();
    let p = run(&c, &[N::FastBlade, N::Requiescat]);
    let bytes = p.encode();
    assert_eq!(bytes.len(), (7 + 16 * 5) * 4);
    assert_eq!(&bytes[0..4], &[0x40, 0x06, 0, 0]);
    assert_eq!(&bytes[4..8], &[0x10, 0x27, 0, 0]);
    assert_eq!(&bytes[8..12], &[0x84, 0x03, 0, 0]);
    assert_eq!(&bytes[12..16], &[1, 0, 0, 0]);
    let mut s = DefaultHasher::new();
    s.write(&bytes);
    assert_eq!(s.finish(), calculate_hash(&p));
    let mut s = DefaultHasher::new();
    p.hash(&mut s);
    assert_eq!(s.finish(), calculate_hash(&p));
}

#[test]
fn fingerprint_ignores_the_score() {
    let c = paladin();
    let p = run(&c, &[N::FastBlade]);
    let q = p.clone().with_damage(123456);
    assert_eq!(q.damage(), 123456);
    assert_eq!(calculate_hash(&p), calculate_hash(&q));
    assert_eq!(p.encode(), q.encode());
}

#[test]
fn fingerprint_tells_states_apart() {
    let c = paladin();
    let a = run(&c, &[N::FastBlade]);
    let b = run(&c, &[N::RiotBlade]);
    let root = opening(&c);
    assert_ne!(a.encode(), b.encode());
    assert_ne!(calculate_hash(&a), calculate_hash(&b));
    assert_ne!(calculate_hash(&a), calculate_hash(&root));
}

#[test]
fn two_orders_meet_in_one_fingerprint() {
    let c = paladin();
    let a = run(&c, &[N::FastBlade, N::RiotBlade, N::FastBlade]);
    let b = run(&c, &[N::RiotBlade, N::FastBlade, N::FastBlade]);
    assert_eq!(a.damage(), 6800);
    assert_eq!(b.damage(), 5200);
    assert_eq!(a.time(), 5800);
    assert_eq!(b.time(), 5800);
    assert_eq!(calculate_hash(&a), calculate_hash(&b));

    let h = calculate_hash(&a);
    let mut t = Dedup::new();
    assert!(t.offer(h, b.damage(), 1, N::FastBlade));
    assert!(!t.offer(h, a.damage(), 2, N::FastBlade));
    assert_eq!(t.best(h), Some(6800));
    assert_eq!(t.link(h), Some((2, N::FastBlade)));

    let mut t = Dedup::new();
    assert!(t.offer(h, a.damage(), 2, N::FastBlade));
    assert!(!t.offer(h, b.damage(), 1, N::FastBlade));
    assert_eq!(t.best(h), Some(6800));
    assert_eq!(t.link(h), Some((2, N::FastBlade)));
}

#[test]
fn cmp_orders_by_rate_then_time() {
    let c = paladin();
    let root = opening(&c);
    let fast = run(&c, &[N::FastBlade]);
    let goring = run(&c, &[N::GoringBlade]);
    let buff = run(&c, &[N::FightOrFlight]);
    assert_eq!(goring.cmp(&fast), Ordering::Greater);
    assert_eq!(fast.cmp(&goring), Ordering::Less);
    assert_eq!(fast.cmp(&buff), Ordering::Greater);
    assert_eq!(root.cmp(&buff), Ordering::Less);
    assert_eq!(buff.cmp(&root), Ordering::Greater);
    assert_eq!(fast.cmp(&fast.clone()), Ordering::Equal);
    assert!(goring.outranks(&fast));
    assert!(!fast.outranks(&goring));
    assert!(!fast.outranks(&fast.clone()));

    let slow = run(&c, &[N::FastBlade, N::RiotBlade]);
    let same_rate = fast.clone().with_damage(0);
    let later = slow.clone().with_damage(0);
    assert_eq!(same_rate.cmp(&later), Ordering::Less);
    assert_eq!(later.cmp(&same_rate), Ordering::Greater);
}

#[test]
fn cmp_does_not_overflow() {
    let c = paladin();
    let mut a = run(&c, &[N::FastBlade]).with_damage(u32::MAX);
    a.tick(u32::MAX - 800, &c);
    let b = run(&c, &[N::FastBlade]).with_damage(u32::MAX - 1);
    assert_eq!(a.time(), u32::MAX);
    assert_eq!(a.cmp(&b), Ordering::Less);
    assert_eq!(b.cmp(&a), Ordering::Greater);
}

#[test]
fn cmp_breaks_ties_by_fingerprint() {
    let c = paladin();
    let a = run(&c, &[N::FightOrFlight]);
    let b = run(&c, &[N::Requiescat]).with_damage(0);
    assert_eq!(a.time(), b.time());
    let expected = calculate_hash(&a).cmp(&calculate_hash(&b));
    assert_ne!(expected, Ordering::Equal);
    assert_eq!(a.cmp(&b), expected);
    assert_eq!(b.cmp(&a), expected.reverse());
}

#[test]
fn frontier_hands_out_the_highest_rank_first() {
    let c = paladin();
    let mut f = Frontier::new();
    assert!(f.is_empty());
    assert!(f.pop().is_none());
    f.push(run(&c, &[N::FastBlade]));
    f.push(opening(&c));
    f.push(run(&c, &[N::GoringBlade]));
    f.push(run(&c, &[N::FightOrFlight]));
    assert_eq!(f.len(), 4);
    assert_eq!(f.pop().unwrap().damage(), 7000);
    assert_eq!(f.pop().unwrap().damage(), 2000);
    let third = f.pop().unwrap();
    assert_eq!((third.damage(), third.time()), (0, 800));
    let last = f.pop().unwrap();
    assert_eq!((last.damage(), last.time()), (0, 0));
    assert!(f.is_empty());
    assert!(f.pop().is_none());
}

#[test]
fn search_with_a_small_horizon_ends_within_it() {
    let c = paladin();
    let horizon = 2500;
    let out = search_within(&c, horizon);
    assert_eq!(out.best_score, 16500);
    assert!(!out.actions.is_empty());
    let states = play_sequence(&c, &out.actions, horizon).unwrap();
    let last = states.last().unwrap();
    assert!(last.time() <= horizon);
    assert_eq!(last.damage(), out.best_score);
}

#[test]
fn search_with_no_time_finds_nothing() {
    let c = paladin();
    let out = search_within(&c, 0);
    assert_eq!(out.best_score, 0);
    assert_eq!(out.actions, Vec::<ActionName>::new());
    assert_eq!(out.seen, 1);
    assert_eq!(out.best_print, calculate_hash(&opening(&c)));
    let out = search_within(&c, 799);
    assert_eq!(out.best_score, 0);
    assert_eq!(out.actions, Vec::<ActionName>::new());
}

#[test]
fn search_with_one_action_slot() {
    let c = paladin();
    let out = search_within(&c, 800);
    assert_eq!(out.best_score, 7000);
    assert_eq!(out.actions, vec![N::GoringBlade]);
}

#[test]
fn search_keeps_the_higher_of_two_orders() {
    let c = two_blades();
    assert!(c.is_valid());
    let high = run(&c, &[N::FastBlade, N::RiotBlade, N::FastBlade]);
    let low = run(&c, &[N::RiotBlade, N::FastBlade, N::FastBlade]);
    assert_eq!(calculate_hash(&high), calculate_hash(&low));
    assert_eq!((high.damage(), low.damage()), (6800, 5200));

    let mut s = Search::start(&c, 5800);
    while s.step() {}
    assert_eq!(s.recorded(calculate_hash(&low)), Some(6800));
    assert_eq!(s.recorded(0), None);
    assert_eq!(s.best_score(), 6800);

    let out = search_within(&c, 5800);
    assert_eq!(out.best_score, 6800);
    assert_eq!(out.best_print, s.best_print());
    assert_eq!(out.seen, s.seen());
    assert_eq!(s.recorded(out.best_print), Some(6800));
    assert_eq!(out.actions, s.best_route());
    let states = play_sequence(&c, &out.actions, 5800).unwrap();
    assert_eq!(states.last().unwrap().damage(), 6800);
}

#[test]
fn search_uses_the_default_horizon() {
    let c = two_blades();
    assert_eq!(MAX_TIME, 10000);
    let out = search(&c);
    assert_eq!(out.best_score, 9600);
    assert_eq!(out.actions, vec![N::FastBlade, N::RiotBlade, N::FastBlade, N::RiotBlade]);
    let same = search_within(&c, MAX_TIME);
    assert_eq!(same.best_score, out.best_score);
    assert_eq!(same.actions, out.actions);
}

#[test]
fn search_can_be_driven_step_by_step() {
    let c = two_blades();
    let mut s = Search::start(&c, 5800);
    assert!(!s.is_done());
    assert_eq!(s.waiting(), 1);
    assert_eq!(s.seen(), 1);
    assert_eq!(s.best_score(), 0);
    assert!(s.step());
    assert_eq!(s.waiting(), 2);
    assert_eq!(s.seen(), 3);
    let mut steps = 1;
    while s.step() {
        steps += 1;
        assert!(steps < 1000);
    }
    assert!(s.is_done());
    assert!(!s.step());
    assert_eq!(s.best_score(), 6800);
    assert_eq!(s.best_route().len(), 3);
    assert_eq!(steps, s.seen());
}

#[test]
fn search_at_a_medium_horizon_replays_to_its_score() {
    let c = paladin();
    let horizon = 4100;
    let out = search_within(&c, horizon);
    assert_eq!(out.best_score, 29375);
    let states = play_sequence(&c, &out.actions, horizon).unwrap();
    let last = states.last().unwrap();
    assert_eq!(last.damage(), out.best_score);
    assert!(last.time() <= horizon);
    assert_eq!(calculate_hash(last), out.best_print);
    assert!(out.seen > 1000);
    for a in &out.actions {
        assert_ne!(*a, N::NoAction);
    }
}
