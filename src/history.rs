//! One slot of the primary context table.
use crate::byte::Byte;
use crate::history_state::{outcome, ranked, ByteMatched, HistoryState, HistoryStateTable};
use vstd::prelude::*;

verus! {

/// A slot of the primary model packed in 32 bits: the state index in the
/// low byte, then the first, second and third remembered bytes.
#[derive(Copy, Clone, PartialEq, Eq, Structural, Debug)]
pub struct ByteHistory(u32);

/// Packing four bytes with shifts and reading them back with divisions.
proof fn lemma_pack(state: u8, f: u8, s: u8, t: u8)
    ensures
        ({
            let w = (state as u32) | ((f as u32) << 8u32) | ((s as u32) << 16u32) | ((t as u32) << 24u32);
            &&& w % 256 == state
            &&& (w / 256) % 256 == f
            &&& (w / 65536) % 256 == s
            &&& w / 16777216 == t
        }),
{
    let (a, b, c, d) = (state as u32, f as u32, s as u32, t as u32);
    assert(a < 256 && b < 256 && c < 256 && d < 256 ==> {
        let w = a | (b << 8u32) | (c << 16u32) | (d << 24u32);
        &&& w % 256 == a
        &&& (w / 256) % 256 == b
        &&& (w / 65536) % 256 == c
        &&& w / 16777216 == d
    }) by (bit_vector);
}

/// The shift-and-mask reads of a slot are its arithmetic fields.
proof fn lemma_unpack(w: u32)
    ensures
        w & 0xFF == w % 256,
        (w >> 8u32) & 0xFF == (w / 256) % 256,
        (w >> 16u32) & 0xFF == (w / 65536) % 256,
        w >> 24u32 == w / 16777216,
        w / 16777216 < 256,
{
    assert(w & 0xFF == w % 256) by (bit_vector);
    assert((w >> 8u32) & 0xFF == (w / 256) % 256) by (bit_vector);
    assert((w >> 16u32) & 0xFF == (w / 65536) % 256) by (bit_vector);
    assert(w >> 24u32 == w / 16777216) by (bit_vector);
}

impl ByteHistory {
    /// The index of the slot's state in the primary state table.
    pub closed spec fn state_index(self) -> int {
        self.0 as int % 256
    }

    /// The most recently matched byte.
    pub closed spec fn first(self) -> u8 {
        ((self.0 as int / 256) % 256) as u8
    }

    /// The second remembered byte.
    pub closed spec fn second(self) -> u8 {
        ((self.0 as int / 65536) % 256) as u8
    }

    /// The third remembered byte.
    pub closed spec fn third(self) -> u8 {
        (self.0 as int / 16777216) as u8
    }

    /// The empty slot.
    pub closed spec fn new_spec() -> ByteHistory {
        ByteHistory(0)
    }

    /// The slot with state index `state` and bytes `f`, `s`, `t`.
    pub closed spec fn spec_pack(state: int, f: u8, s: u8, t: u8) -> ByteHistory {
        ByteHistory((state + 256 * f + 65536 * s + 16777216 * t) as u32)
    }

    /// A slot is the packing of its fields, and packing keeps them.
    pub proof fn lemma_pack_fields(h: ByteHistory, state: int, f: u8, s: u8, t: u8)
        requires
            0 <= state < 256,
        ensures
            ({
                let p = ByteHistory::spec_pack(state, f, s, t);
                &&& p.state_index() == state
                &&& p.first() == f
                &&& p.second() == s
                &&& p.third() == t
            }),
            (h.state_index() == state && h.first() == f && h.second() == s && h.third() == t) ==> h
                == ByteHistory::spec_pack(state, f, s, t),
    {
        let (a, b, c, d) = (state as u32, f as u32, s as u32, t as u32);
        assert(a < 256u32 && b < 256u32 && c < 256u32 && d < 256u32 ==> {
            let w = (a + 256u32 * b + 65536u32 * c + 16777216u32 * d) as u32;
            &&& a + 256u32 * b + 65536u32 * c + 16777216u32 * d < 0x1_0000_0000
            &&& w % 256u32 == a
            &&& (w / 256u32) % 256u32 == b
            &&& (w / 65536u32) % 256u32 == c
            &&& w / 16777216u32 == d
        }) by (bit_vector);
        let x = h.0;
        assert(x == x % 256u32 + 256u32 * ((x / 256u32) % 256u32) + 65536u32 * ((x / 65536u32) % 256u32)
            + 16777216u32 * (x / 16777216u32)) by (bit_vector);
    }

    /// The slot that holds these fields.
    fn pack(state: u8, f: u8, s: u8, t: u8) -> (r: ByteHistory)
        ensures
            r.state_index() == state,
            r.first() == f,
            r.second() == s,
            r.third() == t,
            r == ByteHistory::spec_pack(state as int, f, s, t),
    {
        proof {
            lemma_pack(state, f, s, t);
            ByteHistory::lemma_pack_fields(ByteHistory::spec_pack(state as int, f, s, t), state as int, f, s, t);
        }
        ByteHistory((state as u32) | ((f as u32) << 8) | ((s as u32) << 16) | ((t as u32) << 24))
    }

    /// An empty slot: state 0 and all three bytes zero.
    pub fn new() -> (r: ByteHistory)
        ensures
            r == ByteHistory::new_spec(),
            r.state_index() == 0,
            r.first() == 0,
            r.second() == 0,
            r.third() == 0,
    {
        ByteHistory(0)
    }

    /// The first remembered byte.
    pub fn first_byte(&self) -> (r: Byte)
        ensures
            r.0 == self.first(),
    {
        proof {
            lemma_unpack(self.0);
        }
        Byte(((self.0 >> 8) & 0xFF) as u8)
    }

    /// The second remembered byte.
    pub fn second_byte(&self) -> (r: Byte)
        ensures
            r.0 == self.second(),
    {
        proof {
            lemma_unpack(self.0);
        }
        Byte(((self.0 >> 16) & 0xFF) as u8)
    }

    /// The third remembered byte.
    pub fn third_byte(&self) -> (r: Byte)
        ensures
            r.0 == self.third(),
    {
        proof {
            lemma_unpack(self.0);
        }
        Byte((self.0 >> 24) as u8)
    }

    /// The index of the slot's state.
    pub fn state(&self) -> (r: usize)
        ensures
            r == self.state_index(),
            r < 256,
    {
        proof {
            lemma_unpack(self.0);
        }
        (self.0 & 0xFF) as usize
    }

    /// The slot's entry of the state table.
    pub fn get_state(&self, table: &HistoryStateTable) -> (r: HistoryState)
        requires
            table.wf(),
        ensures
            r == table@[self.state_index()],
    {
        table.get(self.state())
    }

    /// The match count of the slot's state.
    pub fn match_count(&self, table: &HistoryStateTable) -> (r: usize)
        requires
            table.wf(),
        ensures
            r == table@[self.state_index()].first_count_spec(),
    {
        self.get_state(table).match_count()
    }

    /// The first, second and third bytes and the match count.
    pub fn get(&self, table: &HistoryStateTable) -> (r: (Byte, Byte, Byte, usize))
        requires
            table.wf(),
        ensures
            r.0.0 == self.first(),
            r.1.0 == self.second(),
            r.2.0 == self.third(),
            r.3 == table@[self.state_index()].first_count_spec(),
    {
        (self.first_byte(), self.second_byte(), self.third_byte(), self.match_count(table))
    }

    /// Ranks `next_byte` against the slot, updates the slot as `matched`
    /// does and returns the outcome.
    pub fn matching(&mut self, current_state: HistoryState, next_byte: Byte) -> (r: ByteMatched)
        ensures
            r == outcome(old(self).first(), old(self).second(), old(self).third(), next_byte.0),
            (final(self).first(), final(self).second(), final(self).third()) == ranked(
                old(self).first(),
                old(self).second(),
                old(self).third(),
                next_byte.0,
                r,
            ),
            final(self).state_index() == current_state.next_spec(r),
    {
        let f = self.first_byte();
        let s = self.second_byte();
        let t = self.third_byte();
        let matched = if next_byte == f {
            ByteMatched::First
        } else if next_byte == s {
            ByteMatched::Second
        } else if next_byte == t {
            ByteMatched::Third
        } else {
            ByteMatched::Miss
        };
        self.matched(current_state, next_byte, matched);
        matched
    }

    /// Records that `next_byte` followed the context with outcome
    /// `matched`: the bytes are re-ranked and the state moves to the
    /// successor that `current_state` gives for the outcome.
    pub fn matched(&mut self, current_state: HistoryState, next_byte: Byte, matched: ByteMatched)
        ensures
            (final(self).first(), final(self).second(), final(self).third()) == ranked(
                old(self).first(),
                old(self).second(),
                old(self).third(),
                next_byte.0,
                matched,
            ),
            final(self).state_index() == current_state.next_spec(matched),
    {
        let f = self.first_byte().0;
        let s = self.second_byte().0;
        let t = self.third_byte().0;
        let next = current_state.next(matched) as u8;
        let x = next_byte.0;
        *self = match matched {
            ByteMatched::First => ByteHistory::pack(next, f, s, t),
            ByteMatched::Second => ByteHistory::pack(next, x, f, t),
            ByteMatched::Third => ByteHistory::pack(next, x, f, s),
            ByteMatched::Miss => ByteHistory::pack(next, x, f, s),
        };
    }
}

} // verus!
