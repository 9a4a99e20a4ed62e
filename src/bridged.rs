//! Where the two models meet: the secondary context indices that a slot of
//! the primary model selects.
use crate::byte::Byte;
use crate::history::ByteHistory;
use crate::history_state::HistoryState;
use vstd::prelude::*;

verus! {

/// The number of predictor slots of the secondary context table: 16384
/// literal subtables of 256 slots, then 1056 blocks of 768 slots for the
/// decision bits.
pub const SECONDARY_CONTEXT_SIZE: usize = 0x4000 * 256 + (1024 + 32) * 768;

/// The first secondary slot used for decision bits.
pub const BIT_CONTEXT_BASE: usize = 0x4000 * 256;

/// The start of the 768-slot block that coded decisions use, given the
/// match count of the slot's state and the previous byte.
pub open spec fn bit_context_of(match_count: int, previous_byte: u8) -> int {
    BIT_CONTEXT_BASE + (if match_count < 4 {
        previous_byte * 4 + match_count
    } else {
        1024 + (if match_count - 4 <= 63 {
            (match_count - 4) / 2
        } else {
            31
        })
    }) * 768
}

/// The start of the 256-slot literal subtable for a context hash.
pub open spec fn literal_context_of(hash_value: int) -> int {
    (hash_value % 0x4000) * 256
}

/// The secondary context indices derived from the current slot of the
/// primary model.
pub struct BridgedContextInfo {
    bit_context: usize,
    literal_context: usize,
    current_history: ByteHistory,
    current_state: HistoryState,
}

impl BridgedContextInfo {
    /// The start of the block for the decision bits.
    pub closed spec fn bit_context_spec(&self) -> int {
        self.bit_context as int
    }

    /// The start of the literal subtable.
    pub closed spec fn literal_context_spec(&self) -> int {
        self.literal_context as int
    }

    /// The slot the indices were derived from.
    pub closed spec fn history_spec(&self) -> ByteHistory {
        self.current_history
    }

    /// The state-table entry of that slot.
    pub closed spec fn state_spec(&self) -> HistoryState {
        self.current_state
    }

    /// The indices for `current_history` with state entry `current_state`,
    /// after `previous_byte`, in the context hashed to `hash_value`.
    pub closed spec fn spec_new(
        current_history: ByteHistory,
        current_state: HistoryState,
        previous_byte: u8,
        hash_value: int,
    ) -> BridgedContextInfo {
        BridgedContextInfo {
            bit_context: bit_context_of(current_state.first_count_spec() as int, previous_byte) as usize,
            literal_context: literal_context_of(hash_value) as usize,
            current_history,
            current_state,
        }
    }

    /// What the indices of `spec_new` are.
    pub proof fn lemma_spec_new(
        current_history: ByteHistory,
        current_state: HistoryState,
        previous_byte: u8,
        hash_value: int,
    )
        requires
            0 <= hash_value,
        ensures
            ({
                let r = BridgedContextInfo::spec_new(current_history, current_state, previous_byte, hash_value);
                &&& r.wf()
                &&& r.bit_context_spec() == bit_context_of(current_state.first_count_spec() as int, previous_byte)
                &&& r.literal_context_spec() == literal_context_of(hash_value)
                &&& r.history_spec() == current_history
                &&& r.state_spec() == current_state
            }),
    {
    }

    /// Index of the first decision: is the byte the first one?
    pub open spec fn first_context_spec(&self) -> int {
        self.bit_context_spec() + self.history_spec().first()
    }

    /// Index of the second decision: is the byte a literal?
    pub open spec fn second_context_spec(&self) -> int {
        self.bit_context_spec() + 0x100 + (self.history_spec().second() + self.history_spec().third())
            % 256
    }

    /// Index of the third decision: is the byte the second or the third one?
    pub open spec fn third_context_spec(&self) -> int {
        self.bit_context_spec() + 0x200 + (2 * self.history_spec().second()
            - self.history_spec().third()) % 256
    }

    /// Every index lies in the secondary table, and the literal subtable is
    /// a whole aligned block of 256 slots before the decision blocks.
    pub open spec fn wf(&self) -> bool {
        &&& BIT_CONTEXT_BASE <= self.bit_context_spec()
        &&& self.bit_context_spec() + 768 <= SECONDARY_CONTEXT_SIZE
        &&& 0 <= self.literal_context_spec()
        &&& self.literal_context_spec() % 256 == 0
        &&& self.literal_context_spec() + 256 <= BIT_CONTEXT_BASE
    }

    /// The indices for `current_history`, whose state-table entry is
    /// `current_state`, after `previous_byte` and in the context hashed to
    /// `hash_value`.
    pub fn new(
        current_history: ByteHistory,
        current_state: HistoryState,
        previous_byte: Byte,
        hash_value: usize,
    ) -> (r: BridgedContextInfo)
        ensures
            r.wf(),
            r == BridgedContextInfo::spec_new(
                current_history,
                current_state,
                previous_byte.0,
                hash_value as int,
            ),
            r.bit_context_spec() == bit_context_of(
                current_state.first_count_spec() as int,
                previous_byte.0,
            ),
            r.literal_context_spec() == literal_context_of(hash_value as int),
            r.history_spec() == current_history,
            r.state_spec() == current_state,
    {
        let match_count: usize = current_state.match_count();
        let block: usize = if match_count < 4 {
            previous_byte.to_usize() * 4 + match_count
        } else {
            1024 + if match_count - 4 <= 63 {
                (match_count - 4) / 2
            } else {
                31
            }
        };
        BridgedContextInfo {
            bit_context: BIT_CONTEXT_BASE + block * 768,
            literal_context: (hash_value % 0x4000) * 256,
            current_history,
            current_state,
        }
    }

    /// Index of the first decision.
    pub fn first_context(&self) -> (r: usize)
        requires
            self.wf(),
        ensures
            r == self.first_context_spec(),
            r < SECONDARY_CONTEXT_SIZE,
    {
        self.bit_context + self.current_history.first_byte().to_usize()
    }

    /// Index of the second decision.
    pub fn second_context(&self) -> (r: usize)
        requires
            self.wf(),
        ensures
            r == self.second_context_spec(),
            r < SECONDARY_CONTEXT_SIZE,
    {
        self.bit_context + 0x100 + (self.current_history.second_byte().to_usize()
            + self.current_history.third_byte().to_usize()) % 256
    }

    /// Index of the third decision.
    pub fn third_context(&self) -> (r: usize)
        requires
            self.wf(),
        ensures
            r == self.third_context_spec(),
            r < SECONDARY_CONTEXT_SIZE,
    {
        let s = self.current_history.second_byte().to_usize();
        let t = self.current_history.third_byte().to_usize();
        proof {
            assert((2 * s + 256 - t) % 256 == (2 * s - t) % 256) by (nonlinear_arith);
        }
        self.bit_context + 0x200 + (2 * s + 256 - t) % 256
    }

    /// Start of the literal subtable.
    pub fn literal_context(&self) -> (r: usize)
        ensures
            r == self.literal_context_spec(),
    {
        self.literal_context
    }

    /// The first byte of the slot.
    pub fn first_byte(&self) -> (r: Byte)
        ensures
            r.0 == self.history_spec().first(),
    {
        self.current_history.first_byte()
    }

    /// The second byte of the slot.
    pub fn second_byte(&self) -> (r: Byte)
        ensures
            r.0 == self.history_spec().second(),
    {
        self.current_history.second_byte()
    }

    /// The third byte of the slot.
    pub fn third_byte(&self) -> (r: Byte)
        ensures
            r.0 == self.history_spec().third(),
    {
        self.current_history.third_byte()
    }

    /// The state-table entry of the slot.
    pub fn current_state(&self) -> (r: HistoryState)
        ensures
            r == self.state_spec(),
    {
        self.current_state
    }
}

} // verus!
