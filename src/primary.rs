//! The primary model: an order-3 symbol-ranking context table addressed by
//! a rolling hash of the bytes seen.
use crate::buffer::Buffer;
use crate::byte::Byte;
use crate::history::ByteHistory;
use crate::history_state::{history_states, outcome, ranked, ByteMatched, HistoryState, HistoryStateTable};
use vstd::prelude::*;

verus! {

/// The number of slots of the primary context table.
pub const PRIMARY_CONTEXT_SIZE: usize = 0x100_0000;

/// The context hash after byte `b` followed the context hashed to `h`.
pub open spec fn next_hash(h: int, b: u8) -> int {
    (h * 160 + b + 1) % PRIMARY_CONTEXT_SIZE as int
}

/// The primary model's state: the last byte, the current context hash and
/// the table of slots.
pub struct PrimaryContext {
    previous_byte: Byte,
    hash_value: usize,
    context: Buffer<ByteHistory, PRIMARY_CONTEXT_SIZE>,
    states: HistoryStateTable,
}

impl PrimaryContext {
    /// The last byte processed.
    pub closed spec fn previous_byte_spec(&self) -> u8 {
        self.previous_byte.0
    }

    /// The hash of the current context.
    pub closed spec fn hash_spec(&self) -> int {
        self.hash_value as int
    }

    /// The slots of the table.
    pub closed spec fn slots(&self) -> Seq<ByteHistory> {
        self.context@
    }

    /// The primary state table the slots index into.
    pub closed spec fn states_spec(&self) -> HistoryStateTable {
        self.states
    }

    /// The hash addresses a slot of a table of the full size.
    pub open spec fn wf(&self) -> bool {
        &&& self.slots().len() == PRIMARY_CONTEXT_SIZE
        &&& 0 <= self.hash_spec() < PRIMARY_CONTEXT_SIZE
        &&& self.states_spec().wf()
    }

    /// The slot of the current context.
    pub open spec fn current(&self) -> ByteHistory {
        self.slots()[self.hash_spec()]
    }

    /// A model that has seen nothing: every slot empty, hash and previous
    /// byte zero.
    pub fn new() -> (r: PrimaryContext)
        ensures
            r.wf(),
            r.previous_byte_spec() == 0,
            r.hash_spec() == 0,
            r.states_spec()@ == history_states(),
            forall|i: int| 0 <= i < PRIMARY_CONTEXT_SIZE ==> #[trigger] r.slots()[i] == ByteHistory::new_spec(),
    {
        PrimaryContext {
            previous_byte: Byte(0),
            hash_value: 0,
            context: Buffer::new(ByteHistory::new()),
            states: HistoryStateTable::new(),
        }
    }

    /// The slot of the current context.
    pub fn get_history(&self) -> (r: ByteHistory)
        requires
            self.wf(),
        ensures
            r == self.current(),
    {
        self.context.get(self.hash_value)
    }

    /// The state-table entry of the current slot.
    pub fn get_state(&self) -> (r: HistoryState)
        requires
            self.wf(),
        ensures
            r == self.states_spec()@[self.current().state_index()],
    {
        self.get_history().get_state(&self.states)
    }

    /// The last byte processed.
    pub fn previous_byte(&self) -> (r: Byte)
        ensures
            r.0 == self.previous_byte_spec(),
    {
        self.previous_byte
    }

    /// The hash of the current context.
    pub fn hash_value(&self) -> (r: usize)
        ensures
            r == self.hash_spec(),
    {
        self.hash_value
    }

    /// Moves on to the context that follows `next_byte`.
    fn advance(&mut self, next_byte: Byte)
        requires
            old(self).wf(),
        ensures
            final(self).wf(),
            final(self).slots() == old(self).slots(),
            final(self).states_spec() == old(self).states_spec(),
            final(self).previous_byte_spec() == next_byte.0,
            final(self).hash_spec() == next_hash(old(self).hash_spec(), next_byte.0),
    {
        self.previous_byte = next_byte;
        self.hash_value = (self.hash_value * 160 + next_byte.to_usize() + 1) % PRIMARY_CONTEXT_SIZE;
    }

    /// `next` is this model after `x` came with outcome `m` and the current
    /// slot's state entry was `state`: the current slot re-ranks its bytes
    /// and takes the successor state, no other slot changes, and the model
    /// moves to the context that follows `x`.
    pub open spec fn after(&self, next: PrimaryContext, state: HistoryState, x: u8, m: ByteMatched) -> bool {
        let h = self.hash_spec();
        let s = next.slots()[h];
        &&& next.wf()
        &&& next.states_spec() == self.states_spec()
        &&& next.slots() == self.slots().update(h, s)
        &&& (s.first(), s.second(), s.third()) == ranked(
            self.current().first(),
            self.current().second(),
            self.current().third(),
            x,
            m,
        )
        &&& s.state_index() == state.next_spec(m)
        &&& next.previous_byte_spec() == x
        &&& next.hash_spec() == next_hash(h, x)
    }

    /// Ranks `next_byte` in the current slot (whose state-table entry is
    /// `current_state`), updates the slot and moves to the next context.
    pub fn matching(&mut self, current_state: HistoryState, next_byte: Byte) -> (r: ByteMatched)
        requires
            old(self).wf(),
        ensures
            r == outcome(
                old(self).current().first(),
                old(self).current().second(),
                old(self).current().third(),
                next_byte.0,
            ),
            old(self).after(*final(self), current_state, next_byte.0, r),
    {
        let mut slot = self.context.get(self.hash_value);
        let matched = slot.matching(current_state, next_byte);
        self.context.set(self.hash_value, slot);
        self.advance(next_byte);
        matched
    }

    /// Records that `next_byte` came with the already known outcome
    /// `matched`, and moves to the next context.
    pub fn matched(&mut self, current_state: HistoryState, next_byte: Byte, matched: ByteMatched)
        requires
            old(self).wf(),
        ensures
            old(self).after(*final(self), current_state, next_byte.0, matched),
    {
        let mut slot = self.context.get(self.hash_value);
        slot.matched(current_state, next_byte, matched);
        self.context.set(self.hash_value, slot);
        self.advance(next_byte);
    }
}

} // verus!
