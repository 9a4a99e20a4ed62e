//! The two working stages of compression: the primary model turns bytes
//! into messages, the secondary model and the range coder turn messages
//! into coded bytes.
use crate::bit::Bit;
use crate::bridged::{BridgedContextInfo, SECONDARY_CONTEXT_SIZE};
use crate::byte::Byte;
use crate::coder::{narrowed, renormalized, BitEncoder};
use crate::history_state::{outcome, ByteMatched};
use crate::message::{Message, PackedMessage};
use crate::primary::PrimaryContext;
use crate::secondary::{BitState, SecondaryContext};
use crate::secondary_state::StateInfo;
use vstd::prelude::*;

verus! {

/// The messages that code byte `x` with outcome `m` under `info`. A miss
/// sends the byte as a literal.
pub open spec fn decision_messages(info: BridgedContextInfo, m: ByteMatched, x: u8) -> Seq<Message> {
    let first = Message::Bit(info.first_context_spec() as usize, Bit::Zero);
    let escape = Message::Bit(info.first_context_spec() as usize, Bit::One);
    match m {
        ByteMatched::First => seq![first],
        ByteMatched::Miss => seq![
            escape,
            Message::Bit(info.second_context_spec() as usize, Bit::Zero),
            Message::Byte(info.literal_context_spec() as usize, Byte(x)),
        ],
        ByteMatched::Second => seq![
            escape,
            Message::Bit(info.second_context_spec() as usize, Bit::One),
            Message::Bit(info.third_context_spec() as usize, Bit::Zero),
        ],
        ByteMatched::Third => seq![
            escape,
            Message::Bit(info.second_context_spec() as usize, Bit::One),
            Message::Bit(info.third_context_spec() as usize, Bit::One),
        ],
    }
}

/// The context indices that the primary model's current slot selects.
pub open spec fn info_of(p: PrimaryContext) -> BridgedContextInfo {
    BridgedContextInfo::spec_new(
        p.current(),
        p.states_spec()@[p.current().state_index()],
        p.previous_byte_spec(),
        p.hash_spec(),
    )
}

/// The messages a sequence of packed words carries.
pub open spec fn unpacked(s: Seq<PackedMessage>) -> Seq<Message> {
    s.map_values(|p: PackedMessage| p.message())
}

/// The compression stage of the primary model.
pub struct PrimaryContextEncoder {
    context: PrimaryContext,
}

impl PrimaryContextEncoder {
    /// The primary model.
    pub closed spec fn context_spec(&self) -> PrimaryContext {
        self.context
    }

    /// The model is well formed.
    pub open spec fn wf(&self) -> bool {
        self.context_spec().wf()
    }

    /// A stage whose model has seen nothing.
    pub fn new() -> (r: PrimaryContextEncoder)
        ensures
            r.wf(),
            r.context_spec().previous_byte_spec() == 0,
            r.context_spec().hash_spec() == 0,
            r.context_spec().states_spec()@ == crate::history_state::history_states(),
            forall|i: int|
                0 <= i < crate::primary::PRIMARY_CONTEXT_SIZE ==> #[trigger] r.context_spec().slots()[i]
                    == crate::history::ByteHistory::new_spec(),
    {
        PrimaryContextEncoder { context: PrimaryContext::new() }
    }

    /// Appends the messages for byte `x` with outcome `m` under `info`.
    fn push_all(out: &mut Vec<PackedMessage>, info: &BridgedContextInfo, m: ByteMatched, x: Byte)
        requires
            info.wf(),
        ensures
            unpacked(final(out)@) == unpacked(old(out)@) + decision_messages(*info, m, x.0),
    {
        let ghost start = out@;
        let first = info.first_context();
        match m {
            ByteMatched::First => {
                out.push(PackedMessage::bit(first, Bit::Zero));
            },
            ByteMatched::Miss => {
                out.push(PackedMessage::bit(first, Bit::One));
                out.push(PackedMessage::bit(info.second_context(), Bit::Zero));
                out.push(PackedMessage::byte(info.literal_context(), x));
            },
            ByteMatched::Second => {
                out.push(PackedMessage::bit(first, Bit::One));
                out.push(PackedMessage::bit(info.second_context(), Bit::One));
                out.push(PackedMessage::bit(info.third_context(), Bit::Zero));
            },
            ByteMatched::Third => {
                out.push(PackedMessage::bit(first, Bit::One));
                out.push(PackedMessage::bit(info.second_context(), Bit::One));
                out.push(PackedMessage::bit(info.third_context(), Bit::One));
            },
        }
        assert(unpacked(out@) =~= unpacked(start) + decision_messages(*info, m, x.0));
    }

    /// Appends to `out` the messages that code `byte`, and updates the
    /// model.
    pub fn encode(&mut self, byte: u8, out: &mut Vec<PackedMessage>)
        requires
            old(self).wf(),
        ensures
            final(self).wf(),
            ({
                let p = old(self).context_spec();
                let m = outcome(p.current().first(), p.current().second(), p.current().third(), byte);
                &&& unpacked(final(out)@) == unpacked(old(out)@) + decision_messages(info_of(p), m, byte)
                &&& p.after(
                    final(self).context_spec(),
                    p.states_spec()@[p.current().state_index()],
                    byte,
                    m,
                )
            }),
    {
        let history = self.context.get_history();
        let state = self.context.get_state();
        let info = BridgedContextInfo::new(
            history,
            state,
            self.context.previous_byte(),
            self.context.hash_value(),
        );
        let m = self.context.matching(state, Byte(byte));
        PrimaryContextEncoder::push_all(out, &info, m, Byte(byte));
    }

    /// Appends to `out` the end of the stream: a literal equal to the first
    /// byte of the current slot, which a real miss never is.
    pub fn finish(&self, out: &mut Vec<PackedMessage>)
        requires
            self.wf(),
        ensures
            ({
                let p = self.context_spec();
                unpacked(final(out)@) == unpacked(old(out)@) + decision_messages(
                    info_of(p),
                    ByteMatched::Miss,
                    p.current().first(),
                )
            }),
    {
        let history = self.context.get_history();
        let state = self.context.get_state();
        let info = BridgedContextInfo::new(
            history,
            state,
            self.context.previous_byte(),
            self.context.hash_value(),
        );
        PrimaryContextEncoder::push_all(out, &info, ByteMatched::Miss, info.first_byte());
    }
}

/// What the secondary stage holds: its predictors, the coder's range and
/// the bytes coded so far.
pub type CodingState = (Seq<BitState>, u32, u32, Seq<u8>);

/// The coding state after coding `bit` under predictor `ctx`: the coder
/// narrows by the predictor's probability and renormalizes, and the
/// predictor moves to its successor for `bit`.
#[verifier::opaque]
pub open spec fn coded_bit(table: Seq<StateInfo>, s: CodingState, ctx: int, bit: Bit) -> CodingState {
    let info = table[s.0[ctx].0 as int];
    let n = narrowed(s.1, s.2, info.prediction_spec(), bit);
    let r = renormalized(n.0, n.1);
    (s.0.update(ctx, BitState(info.next_spec(bit))), r.1, r.2, s.3 + r.0)
}

/// Bit `i` (counted from the most significant) of the 4-bit `nibble`.
pub open spec fn nibble_bit(nibble: int, i: int) -> Bit {
    if (nibble / pow2_of(3 - i)) % 2 == 1 {
        Bit::One
    } else {
        Bit::Zero
    }
}

/// `2^e` for the small exponents of a nibble.
pub open spec fn pow2_of(e: int) -> int {
    if e <= 0 {
        1
    } else if e == 1 {
        2
    } else if e == 2 {
        4
    } else {
        8
    }
}

/// The coding state after coding a 4-bit `nibble` as a binary tree of
/// predictors under the 15 predictors from `ctx + 1`.
pub open spec fn coded_nibble(table: Seq<StateInfo>, s: CodingState, ctx: int, nibble: int) -> CodingState {
    let t = nibble + 16;
    let s1 = coded_bit(table, s, ctx + 1, nibble_bit(nibble, 0));
    let s2 = coded_bit(table, s1, ctx + t / 8, nibble_bit(nibble, 1));
    let s3 = coded_bit(table, s2, ctx + t / 4, nibble_bit(nibble, 2));
    coded_bit(table, s3, ctx + t / 2, nibble_bit(nibble, 3))
}

/// The coding state after coding literal `b` under the subtable at `ctx`:
/// the high nibble under the first 15 predictors, the low nibble under the
/// block of 15 that the high nibble selects.
pub open spec fn coded_literal(table: Seq<StateInfo>, s: CodingState, ctx: int, b: u8) -> CodingState {
    let high = b / 16;
    let s1 = coded_nibble(table, s, ctx, high as int);
    coded_nibble(table, s1, ctx + 15 * (high + 1), (b % 16) as int)
}

/// The coding state after one message.
pub open spec fn coded_message(table: Seq<StateInfo>, s: CodingState, m: Message) -> CodingState {
    match m {
        Message::Bit(ctx, bit) => coded_bit(table, s, ctx as int, bit),
        Message::Byte(ctx, b) => coded_literal(table, s, ctx as int, b.0),
    }
}

/// The coding state after a sequence of messages.
pub open spec fn coded_messages(table: Seq<StateInfo>, s: CodingState, ms: Seq<Message>) -> CodingState
    decreases ms.len(),
{
    if ms.len() == 0 {
        s
    } else {
        coded_message(table, coded_messages(table, s, ms.drop_last()), ms.last())
    }
}

/// The message addresses predictors inside the secondary table.
pub open spec fn in_range(m: Message) -> bool {
    match m {
        Message::Bit(ctx, _) => ctx < SECONDARY_CONTEXT_SIZE,
        Message::Byte(ctx, _) => ctx + 256 <= SECONDARY_CONTEXT_SIZE,
    }
}

/// The compression stage of the secondary model and the range encoder.
pub struct SecondaryContextEncoder {
    context: SecondaryContext,
    encoder: BitEncoder,
}

impl SecondaryContextEncoder {
    /// The predictors, range and coded bytes.
    pub closed spec fn state(&self) -> CodingState {
        (
            self.context.slots(),
            self.encoder.low_spec(),
            self.encoder.high_spec(),
            self.encoder.output_spec(),
        )
    }

    /// The secondary state table in use.
    pub closed spec fn table(&self) -> Seq<StateInfo> {
        self.context.states_spec()@
    }

    /// Both parts are well formed.
    pub closed spec fn wf(&self) -> bool {
        self.context.wf() && self.encoder.wf()
    }

    /// The secondary state table object in use.
    pub closed spec fn states_table(&self) -> crate::secondary_state::SecondaryStateTable {
        self.context.states_spec()
    }

    /// A stage with every predictor in its initial state, the full range
    /// and nothing coded.
    pub fn new() -> (r: SecondaryContextEncoder)
        ensures
            r.wf(),
            r.states_table().wf(),
            r.states_table().built(),
            r.states_table()@ == r.table(),
            r.state().1 == 0,
            r.state().2 == 0xFFFF_FFFFu32,
            r.state().3 == Seq::<u8>::empty(),
            r.state().0.len() == SECONDARY_CONTEXT_SIZE,
            forall|i: int| 0 <= i < SECONDARY_CONTEXT_SIZE ==> (#[trigger] r.state().0[i]).0 == 0,
    {
        SecondaryContextEncoder { context: SecondaryContext::new(), encoder: BitEncoder::new() }
    }

    /// Codes `bit` under the predictor at `context_index`.
    fn bit(&mut self, context_index: usize, bit: Bit)
        requires
            old(self).wf(),
            context_index < SECONDARY_CONTEXT_SIZE,
        ensures
            final(self).wf(),
            final(self).table() == old(self).table(),
            final(self).states_table() == old(self).states_table(),
            final(self).state() == coded_bit(old(self).table(), old(self).state(), context_index as int, bit),
    {
        let current_state: StateInfo = self.context.get_info(context_index);
        self.context.update(current_state, context_index, bit);
        self.encoder.bit(current_state.prediction(), bit);
        reveal(coded_bit);
        assert(self.context.slots() =~= old(self).state().0.update(
            context_index as int,
            BitState(current_state.next_spec(bit)),
        ));
    }

    /// Codes a 4-bit `nibble` under the tree of predictors from `context_index + 1`.
    fn nibble(&mut self, context_index: usize, nibble: u8)
        requires
            old(self).wf(),
            context_index + 16 <= SECONDARY_CONTEXT_SIZE,
            nibble < 16,
        ensures
            final(self).wf(),
            final(self).table() == old(self).table(),
            final(self).states_table() == old(self).states_table(),
            final(self).state() == coded_nibble(old(self).table(), old(self).state(), context_index as int, nibble as int),
    {
        let t: usize = nibble as usize + 16;
        let b0 = Bit::from_low_bit((t / 8) as u32);
        let b1 = Bit::from_low_bit((t / 4) as u32);
        let b2 = Bit::from_low_bit((t / 2) as u32);
        let b3 = Bit::from_low_bit(t as u32);
        assert(b0 == nibble_bit(nibble as int, 0));
        assert(b1 == nibble_bit(nibble as int, 1));
        assert(b2 == nibble_bit(nibble as int, 2));
        assert(b3 == nibble_bit(nibble as int, 3));
        self.bit(context_index + 1, b0);
        self.bit(context_index + t / 8, b1);
        self.bit(context_index + t / 4, b2);
        self.bit(context_index + t / 2, b3);
    }

    /// Codes a literal under the 256-slot subtable at `context_index`.
    fn byte(&mut self, context_index: usize, byte: Byte)
        requires
            old(self).wf(),
            context_index + 256 <= SECONDARY_CONTEXT_SIZE,
        ensures
            final(self).wf(),
            final(self).table() == old(self).table(),
            final(self).states_table() == old(self).states_table(),
            final(self).state() == coded_literal(old(self).table(), old(self).state(), context_index as int, byte.0),
    {
        let high: u8 = byte.0 / 16;
        self.nibble(context_index, high);
        self.nibble(context_index + 15 * (high as usize + 1), byte.0 % 16);
    }

    /// Codes one message.
    pub fn encode(&mut self, message: PackedMessage)
        requires
            old(self).wf(),
            in_range(message.message()),
        ensures
            final(self).wf(),
            final(self).table() == old(self).table(),
            final(self).states_table() == old(self).states_table(),
            final(self).state() == coded_message(old(self).table(), old(self).state(), message.message()),
            final(self).states_table() == old(self).states_table(),
    {
        match message.get() {
            Message::Bit(context_index, bit) => self.bit(context_index, bit),
            Message::Byte(context_index, value) => self.byte(context_index, value),
        }
    }

    /// Whether `message` addresses predictors inside the table, as
    /// `encode` requires.
    pub fn accepts(message: PackedMessage) -> (r: bool)
        ensures
            r == in_range(message.message()),
    {
        match message.get() {
            Message::Bit(context_index, _) => context_index < SECONDARY_CONTEXT_SIZE,
            Message::Byte(context_index, _) => context_index <= SECONDARY_CONTEXT_SIZE - 256,
        }
    }

    /// Hands out the coded bytes so far.
    pub fn take_output(&mut self) -> (r: Vec<u8>)
        requires
            old(self).wf(),
        ensures
            final(self).wf(),
            r@ == old(self).state().3,
            final(self).table() == old(self).table(),
            final(self).state() == (old(self).state().0, old(self).state().1, old(self).state().2, Seq::<u8>::empty()),
    {
        self.encoder.take_output()
    }

    /// Ends the stream and returns the coded bytes not yet taken.
    pub fn close(self) -> (r: Vec<u8>)
        ensures
            r@ == self.state().3.push((self.state().1 / 0x0100_0000) as u8),
    {
        self.encoder.close()
    }
}

} // verus!
