//! Decompression: the range decoder, the secondary model and the primary
//! model run in one stage, since each decoded bit selects the next context.
use crate::bit::Bit;
use crate::bridged::{BridgedContextInfo, SECONDARY_CONTEXT_SIZE};
use crate::byte::Byte;
use crate::coder::{middle, narrowed, refilled, BitDecoder};
use crate::encoder::info_of;
use crate::history_state::ByteMatched;
use crate::primary::PrimaryContext;
use crate::secondary::{BitState, SecondaryContext};
use crate::secondary_state::StateInfo;
use vstd::prelude::*;

verus! {

/// What the decoding stage holds besides the primary model: its
/// predictors, the decoder's window and range, its read position and the
/// count of bytes it read past the end.
pub type DecodingState = (Seq<BitState>, u32, u32, u32, int, u8);

/// The state after decoding one bit from `input` under predictor `ctx`,
/// and the bit: the decoder refills its window, compares it with the split
/// point of the predictor's probability, and the predictor moves on.
#[verifier::opaque]
pub open spec fn decoded_bit(table: Seq<StateInfo>, input: Seq<u8>, d: DecodingState, ctx: int) -> (
    DecodingState,
    Bit,
) {
    let info = table[d.0[ctx].0 as int];
    let p = info.prediction_spec();
    let f = refilled(input, d.4, d.5, d.1, d.2, d.3);
    let bit = if f.0 <= middle(f.1, f.2, p) {
        Bit::One
    } else {
        Bit::Zero
    };
    let n = narrowed(f.1, f.2, p, bit);
    ((d.0.update(ctx, BitState(info.next_spec(bit))), f.0, n.0, n.1, f.3, f.4), bit)
}

/// The state after decoding a 4-bit nibble as a binary tree under the 15
/// predictors from `ctx + 1`, and the nibble.
pub open spec fn decoded_nibble(table: Seq<StateInfo>, input: Seq<u8>, d: DecodingState, ctx: int) -> (
    DecodingState,
    int,
) {
    let (d1, c1) = decoded_bit(table, input, d, ctx + 1);
    let t1 = 2 + c1.value();
    let (d2, c2) = decoded_bit(table, input, d1, ctx + t1);
    let t2 = 2 * t1 + c2.value();
    let (d3, c3) = decoded_bit(table, input, d2, ctx + t2);
    let t3 = 2 * t2 + c3.value();
    let (d4, c4) = decoded_bit(table, input, d3, ctx + t3);
    (d4, 2 * t3 + c4.value() - 16)
}

/// The state after decoding a literal under the subtable at `ctx`, and the
/// literal.
pub open spec fn decoded_literal(table: Seq<StateInfo>, input: Seq<u8>, d: DecodingState, ctx: int) -> (
    DecodingState,
    u8,
) {
    let (d1, high) = decoded_nibble(table, input, d, ctx);
    let (d2, low) = decoded_nibble(table, input, d1, ctx + 15 * (high + 1));
    (d2, (high * 16 + low) as u8)
}

/// The state after decoding one symbol under `info`, and the symbol: a
/// byte with its outcome, or `None` at the end of the stream (a literal
/// equal to the first byte).
pub open spec fn decoded_symbol(
    table: Seq<StateInfo>,
    input: Seq<u8>,
    d: DecodingState,
    info: BridgedContextInfo,
) -> (DecodingState, Option<(u8, ByteMatched)>) {
    let h = info.history_spec();
    let (d1, b1) = decoded_bit(table, input, d, info.first_context_spec());
    if b1 == Bit::Zero {
        (d1, Some((h.first(), ByteMatched::First)))
    } else {
        let (d2, b2) = decoded_bit(table, input, d1, info.second_context_spec());
        if b2 == Bit::Zero {
            let (d3, v) = decoded_literal(table, input, d2, info.literal_context_spec());
            if v == h.first() {
                (d3, None)
            } else {
                (d3, Some((v, ByteMatched::Miss)))
            }
        } else {
            let (d3, b3) = decoded_bit(table, input, d2, info.third_context_spec());
            if b3 == Bit::Zero {
                (d3, Some((h.second(), ByteMatched::Second)))
            } else {
                (d3, Some((h.third(), ByteMatched::Third)))
            }
        }
    }
}

/// The decompression stage.
pub struct CombinedContextDecoder {
    primary_context: PrimaryContext,
    secondary_context: SecondaryContext,
    decoder: BitDecoder,
}

impl CombinedContextDecoder {
    /// The primary model.
    pub closed spec fn primary_spec(&self) -> PrimaryContext {
        self.primary_context
    }

    /// Predictors, window, range and read position.
    pub closed spec fn state(&self) -> DecodingState {
        (
            self.secondary_context.slots(),
            self.decoder.value_spec(),
            self.decoder.low_spec(),
            self.decoder.high_spec(),
            self.decoder.position_spec(),
            self.decoder.padding_spec(),
        )
    }

    /// The coded input.
    pub closed spec fn input(&self) -> Seq<u8> {
        self.decoder.input_spec()
    }

    /// The secondary state table in use.
    pub closed spec fn table(&self) -> Seq<StateInfo> {
        self.secondary_context.states_spec()@
    }

    /// The secondary state table object in use.
    pub closed spec fn states_table(&self) -> crate::secondary_state::SecondaryStateTable {
        self.secondary_context.states_spec()
    }

    /// All three parts are well formed.
    pub closed spec fn wf(&self) -> bool {
        self.primary_context.wf() && self.secondary_context.wf() && self.decoder.wf()
    }

    /// A stage over the coded payload `input` (without the header), with
    /// both models fresh.
    pub fn new(input: Vec<u8>) -> (r: CombinedContextDecoder)
        ensures
            r.wf(),
            r.input() == input@,
            r.states_table().wf(),
            r.states_table().built(),
            r.states_table()@ == r.table(),
            r.primary_spec().states_spec()@ == crate::history_state::history_states(),
            r.primary_spec().wf(),
            r.state().1 == 0 && r.state().2 == 0 && r.state().3 == 0 && r.state().4 == 0
                && r.state().5 == 0,
            r.state().0.len() == SECONDARY_CONTEXT_SIZE,
            forall|i: int| 0 <= i < SECONDARY_CONTEXT_SIZE ==> (#[trigger] r.state().0[i]).0 == 0,
            r.primary_spec().previous_byte_spec() == 0,
            r.primary_spec().hash_spec() == 0,
            forall|i: int|
                0 <= i < crate::primary::PRIMARY_CONTEXT_SIZE ==> #[trigger] r.primary_spec().slots()[i]
                    == crate::history::ByteHistory::new_spec(),
    {
        CombinedContextDecoder {
            primary_context: PrimaryContext::new(),
            secondary_context: SecondaryContext::new(),
            decoder: BitDecoder::new(input),
        }
    }

    /// Whether the decoder has read more than four bytes past the end of
    /// its input, which no complete stream makes it do.
    pub fn exhausted(&self) -> (r: bool)
        ensures
            r == (self.state().5 > 4),
    {
        self.decoder.exhausted()
    }

    /// Decodes a bit under the predictor at `context_index`.
    fn bit(&mut self, context_index: usize) -> (r: Bit)
        requires
            old(self).wf(),
            context_index < SECONDARY_CONTEXT_SIZE,
        ensures
            final(self).wf(),
            final(self).table() == old(self).table(),
            final(self).states_table() == old(self).states_table(),
            final(self).input() == old(self).input(),
            final(self).primary_spec() == old(self).primary_spec(),
            (final(self).state(), r) == decoded_bit(
                old(self).table(),
                old(self).input(),
                old(self).state(),
                context_index as int,
            ),
    {
        let current_state: StateInfo = self.secondary_context.get_info(context_index);
        let bit: Bit = self.decoder.bit(current_state.prediction());
        self.secondary_context.update(current_state, context_index, bit);
        reveal(decoded_bit);
        assert(self.secondary_context.slots() =~= old(self).state().0.update(
            context_index as int,
            BitState(current_state.next_spec(bit)),
        ));
        bit
    }

    /// Decodes a 4-bit nibble under the tree of predictors from `context_index + 1`.
    fn nibble(&mut self, context_index: usize) -> (r: u8)
        requires
            old(self).wf(),
            context_index + 16 <= SECONDARY_CONTEXT_SIZE,
        ensures
            final(self).wf(),
            final(self).table() == old(self).table(),
            final(self).states_table() == old(self).states_table(),
            final(self).input() == old(self).input(),
            final(self).primary_spec() == old(self).primary_spec(),
            (final(self).state(), r as int) == decoded_nibble(
                old(self).table(),
                old(self).input(),
                old(self).state(),
                context_index as int,
            ),
            r < 16,
    {
        let mut t: usize = 1;
        t = 2 * t + self.bit(context_index + t).to_u32() as usize;
        t = 2 * t + self.bit(context_index + t).to_u32() as usize;
        t = 2 * t + self.bit(context_index + t).to_u32() as usize;
        t = 2 * t + self.bit(context_index + t).to_u32() as usize;
        (t - 16) as u8
    }

    /// Decodes a literal under the 256-slot subtable at `context_index`.
    fn byte(&mut self, context_index: usize) -> (r: Byte)
        requires
            old(self).wf(),
            context_index + 256 <= SECONDARY_CONTEXT_SIZE,
        ensures
            final(self).wf(),
            final(self).table() == old(self).table(),
            final(self).states_table() == old(self).states_table(),
            final(self).input() == old(self).input(),
            final(self).primary_spec() == old(self).primary_spec(),
            (final(self).state(), r.0) == decoded_literal(
                old(self).table(),
                old(self).input(),
                old(self).state(),
                context_index as int,
            ),
    {
        let high: u8 = self.nibble(context_index);
        let low: u8 = self.nibble(context_index + 15 * (high as usize + 1));
        Byte(high * 16 + low)
    }

    /// Decodes the next symbol: `Some` byte, after which the primary model
    /// has taken it in, or `None` at the end of the stream.
    pub fn decode_next(&mut self) -> (r: Option<Byte>)
        requires
            old(self).wf(),
        ensures
            final(self).wf(),
            old(self).primary_spec().wf(),
            final(self).table() == old(self).table(),
            final(self).states_table() == old(self).states_table(),
            final(self).input() == old(self).input(),
            ({
                let p = old(self).primary_spec();
                let sym = decoded_symbol(old(self).table(), old(self).input(), old(self).state(), info_of(p));
                &&& final(self).state() == sym.0
                &&& match sym.1 {
                    None => r.is_none() && final(self).primary_spec() == p,
                    Some((x, m)) => r == Some(Byte(x)) && p.after(
                        final(self).primary_spec(),
                        p.states_spec()@[p.current().state_index()],
                        x,
                        m,
                    ),
                }
            }),
    {
        let info: BridgedContextInfo = BridgedContextInfo::new(
            self.primary_context.get_history(),
            self.primary_context.get_state(),
            self.primary_context.previous_byte(),
            self.primary_context.hash_value(),
        );
        let (next_byte, matched): (Byte, ByteMatched) = match self.bit(info.first_context()) {
            Bit::Zero => (info.first_byte(), ByteMatched::First),
            Bit::One => match self.bit(info.second_context()) {
                Bit::Zero => {
                    let next_byte: Byte = self.byte(info.literal_context());
                    if next_byte == info.first_byte() {
                        return None;
                    }
                    (next_byte, ByteMatched::Miss)
                },
                Bit::One => match self.bit(info.third_context()) {
                    Bit::Zero => (info.second_byte(), ByteMatched::Second),
                    Bit::One => (info.third_byte(), ByteMatched::Third),
                },
            },
        };
        self.primary_context.matched(info.current_state(), next_byte, matched);
        Some(next_byte)
    }
}

} // verus!
