//! The secondary model: a flat table of bit predictors, each an index into
//! the secondary state table.
use crate::bit::Bit;
use crate::bridged::SECONDARY_CONTEXT_SIZE;
use crate::buffer::Buffer;
use crate::secondary_state::{SecondaryStateTable, StateInfo};
use vstd::prelude::*;

verus! {

/// One bit predictor: the index of its state in the secondary state table.
#[derive(Copy, Clone, PartialEq, Eq, Structural, Debug)]
pub struct BitState(pub u16);

impl BitState {
    /// The state index.
    pub open spec fn index(self) -> u16 {
        self.0
    }

    /// A predictor in the initial state, index 0.
    pub fn new() -> (r: BitState)
        ensures
            r.index() == 0,
    {
        BitState(0)
    }

    /// The predictor's entry of the state table.
    pub fn get_info(&self, table: &SecondaryStateTable) -> (r: StateInfo)
        requires
            table.wf(),
        ensures
            r == table@[self.index() as int],
    {
        table.get(self.0)
    }

    /// Moves the predictor, whose entry is `current_state`, on by `bit`.
    pub fn update(&mut self, current_state: StateInfo, bit: Bit)
        ensures
            final(self).index() == current_state.next_spec(bit),
    {
        self.0 = current_state.next(bit);
    }
}

/// The table of bit predictors, addressed by context index.
pub struct SecondaryContext {
    context: Buffer<BitState, SECONDARY_CONTEXT_SIZE>,
    states: SecondaryStateTable,
}

impl SecondaryContext {
    /// The predictors.
    pub closed spec fn slots(&self) -> Seq<BitState> {
        self.context@
    }

    /// The state table they index into.
    pub closed spec fn states_spec(&self) -> SecondaryStateTable {
        self.states
    }

    /// The table has its full size and the state table is complete.
    pub open spec fn wf(&self) -> bool {
        &&& self.slots().len() == SECONDARY_CONTEXT_SIZE
        &&& self.states_spec().wf()
        &&& self.states_spec().built()
    }

    /// The state-table entry of the predictor at `i`.
    pub open spec fn info_at(&self, i: int) -> StateInfo {
        self.states_spec()@[self.slots()[i].index() as int]
    }

    /// Every predictor in the initial state.
    pub fn new() -> (r: SecondaryContext)
        ensures
            r.wf(),
            forall|i: int| 0 <= i < SECONDARY_CONTEXT_SIZE ==> (#[trigger] r.slots()[i]).index() == 0,
    {
        SecondaryContext { context: Buffer::new(BitState::new()), states: SecondaryStateTable::new() }
    }

    /// The state-table entry of the predictor at `context_index`.
    pub fn get_info(&self, context_index: usize) -> (r: StateInfo)
        requires
            self.wf(),
            context_index < SECONDARY_CONTEXT_SIZE,
        ensures
            r == self.info_at(context_index as int),
    {
        self.context.get(context_index).get_info(&self.states)
    }

    /// Moves the predictor at `context_index`, whose entry is
    /// `current_state`, on by `bit`.
    pub fn update(&mut self, current_state: StateInfo, context_index: usize, bit: Bit)
        requires
            old(self).wf(),
            context_index < SECONDARY_CONTEXT_SIZE,
        ensures
            final(self).wf(),
            final(self).states_spec() == old(self).states_spec(),
            final(self).slots() == old(self).slots().update(
                context_index as int,
                final(self).slots()[context_index as int],
            ),
            final(self).slots()[context_index as int].index() == current_state.next_spec(bit),
    {
        let mut slot = self.context.get(context_index);
        slot.update(current_state, bit);
        self.context.set(context_index, slot);
    }
}

} // verus!
