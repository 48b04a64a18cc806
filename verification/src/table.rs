//! The two fixed-key tables that hold one entry per action: the catalog of
//! static action properties and the per-state table of action statuses.
//! Both are `enum_map::EnumMap`s keyed by slot; what is taken on trust about
//! that crate is stated on the private functions at the top.

use vstd::prelude::*;
use enum_map::EnumMap;
use crate::names::{Action, ActionName, ACTION_COUNT, GLOBAL_COOLDOWN};
use crate::status::ActionStatus;

verus! {

/// One `ActionStatus` per slot.
#[verifier::external_body]
#[derive(Debug, PartialEq, Eq)]
pub struct StatusTable {
    inner: EnumMap<u8, ActionStatus>,
}

/// One `Action` per slot. It is filled once and only read afterwards.
#[verifier::external_body]
#[derive(Debug, PartialEq, Eq)]
pub struct Catalog {
    inner: EnumMap<u8, Action>,
}

/// The entries of a status table, by key.
pub uninterp spec fn status_entries(t: StatusTable) -> Map<u8, ActionStatus>;

/// The entries of a catalog, by key.
pub uninterp spec fn catalog_entries(c: Catalog) -> Map<u8, Action>;

/// `EnumMap::from_fn` with a constant callback: every key holds `v`.
#[verifier::external_body]
fn status_table_filled(v: ActionStatus) -> (r: StatusTable)
    ensures
        forall|k: u8| #[trigger] status_entries(r).contains_pair(k, v),
{
    StatusTable { inner: EnumMap::from_fn(|_| v) }
}

/// `EnumMap::clone`: a table with the same entries.
#[verifier::external_body]
fn status_table_clone(t: &StatusTable) -> (r: StatusTable)
    ensures
        status_entries(r) == status_entries(*t),
{
    StatusTable { inner: t.inner.clone() }
}

/// `Index::index` on a status table: every key is present, and the entry
/// stored under `k` is returned.
#[verifier::external_body]
fn status_at(t: &StatusTable, k: u8) -> (r: ActionStatus)
    ensures
        status_entries(*t).contains_pair(k, r),
{
    t.inner[k]
}

/// `IndexMut::index_mut` on a status table, then a store through the
/// reference: the entry under `k` becomes `v`, and no other entry changes.
#[verifier::external_body]
fn status_put(t: &mut StatusTable, k: u8, v: ActionStatus)
    ensures
        status_entries(*final(t)) == status_entries(*old(t)).insert(k, v),
{
    t.inner[k] = v;
}

/// `EnumMap::from_fn` with a constant callback: every key holds `v`.
#[verifier::external_body]
fn catalog_filled(v: Action) -> (r: Catalog)
    ensures
        forall|k: u8| #[trigger] catalog_entries(r).contains_pair(k, v),
{
    Catalog { inner: EnumMap::from_fn(|_| v) }
}

/// `Index::index` on a catalog: every key is present, and the entry stored
/// under `k` is returned.
#[verifier::external_body]
fn catalog_at(c: &Catalog, k: u8) -> (r: Action)
    ensures
        catalog_entries(*c).contains_pair(k, r),
{
    c.inner[k]
}

/// `IndexMut::index_mut` on a catalog, then a store through the reference:
/// the entry under `k` becomes `v`, and no other entry changes.
#[verifier::external_body]
fn catalog_put(c: &mut Catalog, k: u8, v: Action)
    ensures
        catalog_entries(*final(c)) == catalog_entries(*old(c)).insert(k, v),
{
    c.inner[k] = v;
}

/// What a catalog must satisfy for transitions to be defined on it: every
/// action has at least one charge and a positive recast, and an action gated
/// by the shared cooldown alone regains its charge within one shared
/// cooldown.
pub open spec fn catalog_ok(cat: Map<ActionName, Action>) -> bool {
    forall|n: ActionName|
        #![trigger cat[n]]
        {
            &&& cat[n].max_charges >= 1
            &&& cat[n].recast >= 1
            &&& !cat[n].cooldown_type.charge_gated() ==> cat[n].recast <= GLOBAL_COOLDOWN
        }
}

/// The condition of `catalog_ok` on one entry.
pub open spec fn action_ok(a: Action) -> bool {
    &&& a.max_charges >= 1
    &&& a.recast >= 1
    &&& !a.cooldown_type.charge_gated() ==> a.recast <= GLOBAL_COOLDOWN
}

impl StatusTable {
    /// The status of each action.
    pub open spec fn view(&self) -> Map<ActionName, ActionStatus> {
        Map::new(|n: ActionName| true, |n: ActionName| status_entries(*self)[n.slot()])
    }

    /// A table in which every action has status `v`.
    pub fn filled(v: ActionStatus) -> (r: StatusTable)
        ensures
            r@ == Map::new(|n: ActionName| true, |n: ActionName| v),
    {
        let r = status_table_filled(v);
        assert forall|n: ActionName| #[trigger] r@[n] == v by {
            assert(status_entries(r).contains_pair(n.slot(), v));
        }
        assert(r@ =~= Map::new(|n: ActionName| true, |n: ActionName| v));
        r
    }

    /// The status of `name`.
    pub fn get(&self, name: ActionName) -> (r: ActionStatus)
        ensures
            r == self@[name],
    {
        status_at(self, name.index())
    }

    /// Replaces the status of `name`.
    pub fn set(&mut self, name: ActionName, v: ActionStatus)
        ensures
            final(self)@ == old(self)@.insert(name, v),
    {
        status_put(self, name.index(), v);
        assert forall|n: ActionName| #[trigger] final(self)@[n] == old(self)@.insert(name, v)[n] by {
            n.lemma_slots();
            name.lemma_slots();
        }
        assert(final(self)@ =~= old(self)@.insert(name, v));
    }
}

impl Clone for StatusTable {
    /// A table with the same statuses.
    fn clone(&self) -> (r: Self)
        ensures
            r@ == self@,
    {
        status_table_clone(self)
    }
}

impl Catalog {
    /// The properties of each action.
    pub open spec fn view(&self) -> Map<ActionName, Action> {
        Map::new(|n: ActionName| true, |n: ActionName| catalog_entries(*self)[n.slot()])
    }

    /// A catalog in which every action has the properties `v`.
    pub fn uniform(v: Action) -> (r: Catalog)
        ensures
            r@ == Map::new(|n: ActionName| true, |n: ActionName| v),
    {
        let r = catalog_filled(v);
        assert forall|n: ActionName| #[trigger] r@[n] == v by {
            assert(catalog_entries(r).contains_pair(n.slot(), v));
        }
        assert(r@ =~= Map::new(|n: ActionName| true, |n: ActionName| v));
        r
    }

    /// The properties of `name`.
    pub fn get(&self, name: ActionName) -> (r: Action)
        ensures
            r == self@[name],
    {
        catalog_at(self, name.index())
    }

    /// Replaces the properties of `name`.
    pub fn assign(&mut self, name: ActionName, v: Action)
        ensures
            final(self)@ == old(self)@.insert(name, v),
    {
        catalog_put(self, name.index(), v);
        assert forall|n: ActionName| #[trigger] final(self)@[n] == old(self)@.insert(name, v)[n] by {
            n.lemma_slots();
            name.lemma_slots();
        }
        assert(final(self)@ =~= old(self)@.insert(name, v));
    }

    /// Whether transitions are defined on this catalog.
    pub fn is_valid(&self) -> (b: bool)
        ensures
            b == catalog_ok(self@),
    {
        let mut i: u8 = 0;
        while i < ACTION_COUNT
            invariant
                i <= ACTION_COUNT,
                forall|n: ActionName| n.slot() < i ==> action_ok(#[trigger] self@[n]),
            decreases ACTION_COUNT - i,
        {
            let name = ActionName::from_index(i).unwrap();
            proof {
                ActionName::lemma_at_slot(i);
            }
            let a = self.get(name);
            let fits = match a.cooldown_type {
                crate::names::CooldownType::Global => a.recast <= GLOBAL_COOLDOWN,
                _ => true,
            };
            if !(a.max_charges >= 1 && a.recast >= 1 && fits) {
                assert(!action_ok(self@[name]));
                return false;
            }
            assert forall|n: ActionName| n.slot() < i + 1 implies action_ok(#[trigger] self@[n]) by {
                n.lemma_slots();
            }
            i += 1;
        }
        assert forall|n: ActionName| action_ok(#[trigger] self@[n]) by {
            n.lemma_slots();
        }
        true
    }
}

} // verus!
