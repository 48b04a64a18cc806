//! The canonical fingerprint of a state: a 64-bit hash over every field but
//! the score. States with equal fingerprints count as the same place.

use vstd::prelude::*;
use std::collections::hash_map::DefaultHasher;
use std::hash::Hasher;
use vstd::std_specs::hash::DefaultHasherAdditionalSpecFns;
use crate::model::PlayerModel;
use crate::names::{ActionName, ACTION_COUNT};
use crate::player::Player;
use crate::status::ActionStatus;

verus! {

/// The four bytes of the low 32 bits of `w`, lowest first.
pub open spec fn word_bytes(w: nat) -> Seq<u8> {
    seq![
        (w % 256) as u8,
        (w / 256 % 256) as u8,
        (w / 65536 % 256) as u8,
        (w / 16777216 % 256) as u8,
    ]
}

/// The bytes of one status.
pub open spec fn status_bytes(st: ActionStatus) -> Seq<u8> {
    word_bytes(st.name.slot() as nat) + word_bytes(st.cooldown as nat) + word_bytes(
        st.duration as nat,
    ) + word_bytes(st.charges as nat) + word_bytes(st.count as nat)
}

/// `prefix`, followed by the bytes of the statuses in the first `upto`
/// slots.
pub open spec fn table_bytes(
    prefix: Seq<u8>,
    status: Map<ActionName, ActionStatus>,
    upto: nat,
) -> Seq<u8>
    decreases upto,
{
    if upto == 0 {
        prefix
    } else {
        table_bytes(prefix, status, (upto - 1) as nat) + status_bytes(
            status[ActionName::at_slot((upto - 1) as u8)],
        )
    }
}

/// The bytes of the clock, the pool, the shared cooldown and the stages.
pub open spec fn header_bytes(m: PlayerModel) -> Seq<u8> {
    word_bytes(m.time) + word_bytes(m.mp) + word_bytes(m.global_cooldown) + word_bytes(
        m.basic_combo.ordinal(),
    ) + word_bytes(m.blade_combo.ordinal()) + word_bytes(m.divine_might.ordinal()) + word_bytes(
        m.confiteor.ordinal(),
    )
}

/// The canonical bytes of a state: every field but the score.
pub open spec fn state_bytes(m: PlayerModel) -> Seq<u8> {
    table_bytes(header_bytes(m), m.status, ACTION_COUNT as nat)
}

/// The fingerprint of a state: the standard hasher's digest of one write of
/// its canonical bytes.
pub open spec fn fingerprint(m: PlayerModel) -> u64 {
    DefaultHasher::spec_finish(seq![state_bytes(m)])
}

/// States that differ in nothing but the score have one fingerprint.
pub proof fn lemma_fingerprint_ignores_score(a: PlayerModel, b: PlayerModel)
    requires
        b == (PlayerModel { damage: b.damage, ..a }),
    ensures
        fingerprint(a) == fingerprint(b),
{
    assert(header_bytes(a) == header_bytes(b));
}

/// Appends the four bytes of `w`.
fn push_word(buf: &mut Vec<u8>, w: u32)
    ensures
        final(buf)@ == old(buf)@ + word_bytes(w as nat),
{
    buf.push((w % 256) as u8);
    buf.push((w / 256 % 256) as u8);
    buf.push((w / 65536 % 256) as u8);
    buf.push((w / 16777216) as u8);
    assert(buf@ =~= old(buf)@ + word_bytes(w as nat));
}

/// Appends the bytes of one status.
fn push_status(buf: &mut Vec<u8>, st: &ActionStatus)
    ensures
        final(buf)@ == old(buf)@ + status_bytes(*st),
{
    push_word(buf, st.name.index() as u32);
    push_word(buf, st.cooldown);
    push_word(buf, st.duration);
    push_word(buf, st.charges);
    push_word(buf, st.count);
    assert(buf@ =~= old(buf)@ + status_bytes(*st));
}

impl Player {
    /// The canonical bytes of this state.
    pub fn encode(&self) -> (buf: Vec<u8>)
        ensures
            buf@ == state_bytes(self@),
    {
        let mut buf: Vec<u8> = Vec::new();
        push_word(&mut buf, self.time());
        push_word(&mut buf, self.mp());
        push_word(&mut buf, self.global_cooldown());
        push_word(&mut buf, self.basic_combo().code());
        push_word(&mut buf, self.blade_combo().code());
        push_word(&mut buf, self.divine_might().code());
        push_word(&mut buf, self.confiteor().code());
        assert(buf@ =~= header_bytes(self@));
        let mut i: u8 = 0;
        while i < ACTION_COUNT
            invariant
                i <= ACTION_COUNT,
                buf@ == table_bytes(header_bytes(self@), self@.status, i as nat),
            decreases ACTION_COUNT - i,
        {
            let name = ActionName::from_index(i).unwrap();
            let st = self.status(name);
            push_status(&mut buf, &st);
            i += 1;
        }
        buf
    }

    /// Feeds the canonical bytes of this state to `state` in one write.
    pub fn hash(&self, state: &mut DefaultHasher)
        ensures
            final(state)@ == old(state)@.push(state_bytes(self@)),
    {
        let buf = self.encode();
        state.write(buf.as_slice());
    }
}

/// The fingerprint of a state.
pub fn calculate_hash(t: &Player) -> (h: u64)
    ensures
        h == fingerprint(t@),
{
    let mut s = DefaultHasher::new();
    t.hash(&mut s);
    assert(s@ =~= seq![state_bytes(t@)]);
    s.finish()
}

} // verus!
