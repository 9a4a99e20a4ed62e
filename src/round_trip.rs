//! Compression is reversible. First the range coder alone: the decoder,
//! given the bytes the encoder emitted and the same probabilities, recovers
//! every bit. Then whole streams: decoding a compressed stream symbol by
//! symbol keeps both models in step with those of compression, and ends at
//! the end marker with the original bytes.
use crate::bit::Bit;
use crate::bridged::BridgedContextInfo;
use crate::byte::Byte;
use crate::coder::{
    advanced, byte_at, lemma_split, middle, narrowed, padded, refilled, renormalized, shift_high,
    shift_in, shift_low, top, unsettled,
};
use crate::decoder::{decoded_bit, decoded_literal, decoded_nibble, decoded_symbol, DecodingState};
use crate::encoder::{
    coded_bit, coded_literal, coded_message, coded_messages, coded_nibble, decision_messages,
    nibble_bit, CodingState,
};
use crate::history_state::{outcome, ByteMatched, HistoryState};
use crate::message::Message;
use crate::model::{
    closed_output, compressed, decode_start, decoding_after, decompressed_by, end_messages,
    fresh_coding, fresh_primary, lemma_coded_concat, model_info, model_outcome, primary_after,
    primary_messages, slot_of, stopped,
};
use crate::secondary::BitState;
use crate::secondary_state::StateInfo;
use vstd::prelude::*;

verus! {

/// The bytes the encoder emits from range `[low, high]` for `bits` (each a
/// probability and a bit), renormalizing first and closing at the end.
pub open spec fn emitted(low: u32, high: u32, bits: Seq<(u32, Bit)>) -> Seq<u8>
    decreases bits.len(), 0x1_0000_0000 - (high - low),
{
    if unsettled(low, high) {
        seq![top(low) as u8] + emitted(shift_low(low), shift_high(high), bits)
    } else if bits.len() == 0 {
        seq![top(low) as u8]
    } else {
        let n = narrowed(low, high, bits[0].0, bits[0].1);
        emitted(n.0, n.1, bits.drop_first())
    }
}

/// The bits the decoder produces from `input` for the probabilities
/// `probs`, from the given state.
pub open spec fn decoded_bits(
    input: Seq<u8>,
    pos: int,
    pad: u8,
    value: u32,
    low: u32,
    high: u32,
    probs: Seq<u32>,
) -> Seq<Bit>
    decreases probs.len(),
{
    if probs.len() == 0 {
        Seq::empty()
    } else {
        let f = refilled(input, pos, pad, value, low, high);
        let bit = if f.0 <= middle(f.1, f.2, probs[0]) {
            Bit::One
        } else {
            Bit::Zero
        };
        let n = narrowed(f.1, f.2, probs[0], bit);
        seq![bit] + decoded_bits(input, f.3, f.4, f.0, n.0, n.1, probs.drop_first())
    }
}

/// Byte `i` of `s`, or 255 past its end.
pub open spec fn at(s: Seq<u8>, i: int) -> int {
    if 0 <= i < s.len() {
        s[i] as int
    } else {
        255
    }
}

/// The 32-bit big-endian window of `s` at `i`, filled with 255 past the end.
pub open spec fn window(s: Seq<u8>, i: int) -> int {
    at(s, i) * 0x100_0000 + at(s, i + 1) * 0x1_0000 + at(s, i + 2) * 0x100 + at(s, i + 3)
}

proof fn lemma_at_bound(s: Seq<u8>, i: int)
    ensures
        0 <= at(s, i) <= 255,
{
}

/// Everything the encoder emits from `[low, high]`, read as a window, lies
/// in that range.
proof fn lemma_code_in_range(low: u32, high: u32, bits: Seq<(u32, Bit)>)
    requires
        low <= high,
    ensures
        low <= window(emitted(low, high, bits), 0) <= high,
    decreases bits.len(), 0x1_0000_0000 - (high - low),
{
    let e = emitted(low, high, bits);
    if unsettled(low, high) {
        let (l1, h1) = (shift_low(low), shift_high(high));
        assert(h1 - l1 == (high - low) * 256 + 255);
        lemma_code_in_range(l1, h1, bits);
        let e1 = emitted(l1, h1, bits);
        lemma_at_bound(e1, 0);
        lemma_at_bound(e1, 1);
        lemma_at_bound(e1, 2);
        lemma_at_bound(e1, 3);
        assert(at(e, 0) == top(low));
        assert(at(e, 1) == at(e1, 0));
        assert(at(e, 2) == at(e1, 1));
        assert(at(e, 3) == at(e1, 2));
        assert(window(e, 0) == top(low) * 0x100_0000 + window(e1, 0) / 256);
    } else if bits.len() == 0 {
        assert(at(e, 0) == top(low));
        assert(window(e, 0) == top(low) * 0x100_0000 + 0xFF_FFFF);
    } else {
        lemma_split(low, high, bits[0].0);
        let n = narrowed(low, high, bits[0].0, bits[0].1);
        lemma_code_in_range(n.0, n.1, bits.drop_first());
    }
}

/// Renormalizing first and then emitting is emitting: the bytes from an
/// unsettled range are the bytes shifted out, then those of the settled
/// range.
pub proof fn lemma_emitted_renormalized(low: u32, high: u32, bits: Seq<(u32, Bit)>)
    requires
        low <= high,
    ensures
        ({
            let r = renormalized(low, high);
            emitted(low, high, bits) == r.0 + emitted(r.1, r.2, bits)
        }),
    decreases 0x1_0000_0000 - (high - low),
{
    if unsettled(low, high) {
        let (l1, h1) = (shift_low(low), shift_high(high));
        assert(h1 - l1 == (high - low) * 256 + 255);
        lemma_emitted_renormalized(l1, h1, bits);
        let r1 = renormalized(l1, h1);
        assert(seq![top(low) as u8] + (r1.0 + emitted(r1.1, r1.2, bits)) =~= (seq![top(low) as u8] + r1.0)
            + emitted(r1.1, r1.2, bits));
    } else {
        assert(Seq::<u8>::empty() + emitted(low, high, bits) =~= emitted(low, high, bits));
    }
}

/// A decoder whose window holds the first four bytes of what the encoder
/// emits from `[low, high]`, and whose next reads are the bytes after
/// them, is left by renormalizing in the same relation to the settled
/// range.
proof fn lemma_refill_aligned(
    input: Seq<u8>,
    pos: int,
    pad: u8,
    value: u32,
    low: u32,
    high: u32,
    bits: Seq<(u32, Bit)>,
)
    requires
        low <= high,
        0 <= pos <= input.len(),
        value == window(emitted(low, high, bits), 0),
        forall|j: int| j >= pos ==> #[trigger] byte_at(input, j) == at(emitted(low, high, bits), j - pos + 4),
    ensures
        ({
            let f = refilled(input, pos, pad, value, low, high);
            &&& f.1 <= f.2
            &&& !unsettled(f.1, f.2)
            &&& 0 <= f.3 <= input.len()
            &&& f.0 == window(emitted(f.1, f.2, bits), 0)
            &&& forall|j: int| j >= f.3 ==> #[trigger] byte_at(input, j) == at(emitted(f.1, f.2, bits), j - f.3 + 4)
            &&& (pos + pad == input.len() - emitted(low, high, bits).len() + 4 && (pos == input.len() || pad == 0))
                ==> (f.3 + f.4 == input.len() - emitted(f.1, f.2, bits).len() + 4 && (f.3 == input.len() || f.4 == 0))
        }),
    decreases 0x1_0000_0000 - (high - low),
{
    if unsettled(low, high) {
        let e = emitted(low, high, bits);
        let (l1, h1) = (shift_low(low), shift_high(high));
        assert(h1 - l1 == (high - low) * 256 + 255);
        let e1 = emitted(l1, h1, bits);
        assert(e == seq![top(low) as u8] + e1);
        assert forall|m: int| m >= 1 implies at(e, m) == at(e1, m - 1) by {}
        let b = byte_at(input, pos);
        assert(b == at(e, 4));
        let pos1 = advanced(input, pos);
        let pad1 = padded(input, pos, pad);
        let value1 = shift_in(value, b);
        lemma_at_bound(e, 0);
        lemma_at_bound(e, 1);
        lemma_at_bound(e, 2);
        lemma_at_bound(e, 3);
        lemma_at_bound(e1, 3);
        assert(value as int % 0x100_0000 == at(e, 1) * 0x1_0000 + at(e, 2) * 0x100 + at(e, 3));
        assert(value1 == window(e1, 0));
        assert forall|j: int| j >= pos1 implies #[trigger] byte_at(input, j) == at(e1, j - pos1 + 4) by {
            if pos < input.len() {
                assert(byte_at(input, j) == at(e, j - pos + 4));
            } else {
                assert(byte_at(input, j + 1) == at(e, j + 1 - pos + 4));
            }
        }
        lemma_emitted_nonempty(l1, h1, bits);
        lemma_refill_aligned(input, pos1, pad1, value1, l1, h1, bits);
    }
}

/// The encoder always emits at least its closing byte.
proof fn lemma_emitted_nonempty(low: u32, high: u32, bits: Seq<(u32, Bit)>)
    ensures
        emitted(low, high, bits).len() >= 1,
    decreases bits.len(), 0x1_0000_0000 - (high - low),
{
    if unsettled(low, high) {
        let (l1, h1) = (shift_low(low), shift_high(high));
        assert(h1 - l1 == (high - low) * 256 + 255);
        lemma_emitted_nonempty(l1, h1, bits);
    } else if bits.len() > 0 {
        let n = narrowed(low, high, bits[0].0, bits[0].1);
        lemma_emitted_nonempty(n.0, n.1, bits.drop_first());
    }
}

/// From an aligned state, the decoder yields exactly the encoded bits.
proof fn lemma_decodes(
    input: Seq<u8>,
    pos: int,
    pad: u8,
    value: u32,
    low: u32,
    high: u32,
    bits: Seq<(u32, Bit)>,
)
    requires
        low <= high,
        0 <= pos <= input.len(),
        value == window(emitted(low, high, bits), 0),
        forall|j: int| j >= pos ==> #[trigger] byte_at(input, j) == at(emitted(low, high, bits), j - pos + 4),
    ensures
        decoded_bits(input, pos, pad, value, low, high, bits.map_values(|x: (u32, Bit)| x.0))
            == bits.map_values(|x: (u32, Bit)| x.1),
    decreases bits.len(),
{
    let probs = bits.map_values(|x: (u32, Bit)| x.0);
    if bits.len() == 0 {
        assert(bits.map_values(|x: (u32, Bit)| x.1) =~= Seq::<Bit>::empty());
    } else {
        lemma_refill_aligned(input, pos, pad, value, low, high, bits);
        let f = refilled(input, pos, pad, value, low, high);
        let (prob, bit0) = bits[0];
        let rest = bits.drop_first();
        lemma_split(f.1, f.2, prob);
        let n = narrowed(f.1, f.2, prob, bit0);
        assert(emitted(f.1, f.2, bits) == emitted(n.0, n.1, rest));
        lemma_code_in_range(n.0, n.1, rest);
        let bit = if f.0 <= middle(f.1, f.2, probs[0]) {
            Bit::One
        } else {
            Bit::Zero
        };
        assert(bit == bit0);
        lemma_decodes(input, f.3, f.4, f.0, n.0, n.1, rest);
        assert(probs.drop_first() =~= rest.map_values(|x: (u32, Bit)| x.0));
        assert(seq![bit0] + rest.map_values(|x: (u32, Bit)| x.1) =~= bits.map_values(|x: (u32, Bit)| x.1));
    }
}

/// The range coder round trip: a fresh decoder reading the bytes that a
/// fresh encoder emits for `bits` (each coded with its own probability),
/// and given the same probabilities, decodes exactly those bits.
pub proof fn lemma_range_round_trip(bits: Seq<(u32, Bit)>)
    ensures
        decoded_bits(emitted(0, 0xFFFF_FFFF, bits), 0, 0, 0, 0, 0, bits.map_values(|x: (u32, Bit)| x.0))
            == bits.map_values(|x: (u32, Bit)| x.1),
{
    let e0 = emitted(0, 0xFFFF_FFFF, bits);
    assert(shift_high(0) == 0xFFu32);
    assert(shift_high(0xFF) == 0xFFFFu32);
    assert(shift_high(0xFFFF) == 0xFF_FFFFu32);
    assert(shift_high(0xFF_FFFF) == 0xFFFF_FFFFu32);
    assert(shift_low(0) == 0u32);
    let e = emitted(0, 0, bits);
    assert(e == seq![0u8] + emitted(0, 0xFF, bits));
    assert(emitted(0, 0xFF, bits) == seq![0u8] + emitted(0, 0xFFFF, bits));
    assert(emitted(0, 0xFFFF, bits) == seq![0u8] + emitted(0, 0xFF_FFFF, bits));
    assert(emitted(0, 0xFF_FFFF, bits) == seq![0u8] + e0);
    assert(e =~= seq![0u8, 0u8, 0u8, 0u8] + e0);
    assert(window(e, 0) == 0);
    assert forall|j: int| j >= 0 implies #[trigger] byte_at(e0, j) == at(e, j - 0 + 4) by {}
    lemma_decodes(e0, 0, 0, 0, 0, 0, bits);
}

/// The decoding state `d` is in step with an encoder that still has to
/// code `fb`: its window holds the first four bytes of what that encoder
/// emits from the decoder's range, its next reads are the bytes after
/// them, and it has read as far as those bytes lie in `input`.
pub open spec fn aligned(input: Seq<u8>, d: DecodingState, fb: Seq<(u32, Bit)>) -> bool {
    let e = emitted(d.2, d.3, fb);
    &&& d.2 <= d.3
    &&& 0 <= d.4 <= input.len()
    &&& d.1 == window(e, 0)
    &&& forall|j: int| j >= d.4 ==> #[trigger] byte_at(input, j) == at(e, j - d.4 + 4)
    &&& d.4 + d.5 == input.len() - e.len() + 4
    &&& (d.4 == input.len() || d.5 == 0)
}

/// An aligned decoder has read at most three bytes past the end.
proof fn lemma_aligned_padding(input: Seq<u8>, d: DecodingState, fb: Seq<(u32, Bit)>)
    requires
        aligned(input, d, fb),
    ensures
        d.5 <= 3,
{
    lemma_emitted_nonempty(d.2, d.3, fb);
}

/// One bit decoded from an aligned state is the bit the encoder coded
/// next, and leaves the decoder aligned with the rest.
proof fn lemma_decode_bit_step(
    t2: Seq<StateInfo>,
    input: Seq<u8>,
    d: DecodingState,
    ctx: int,
    fb: Seq<(u32, Bit)>,
)
    requires
        aligned(input, d, fb),
        fb.len() > 0,
        fb[0].0 == t2[d.0[ctx].0 as int].prediction_spec(),
    ensures
        ({
            let (d2, b) = decoded_bit(t2, input, d, ctx);
            &&& b == fb[0].1
            &&& d2.0 == d.0.update(ctx, BitState(t2[d.0[ctx].0 as int].next_spec(b)))
            &&& aligned(input, d2, fb.drop_first())
        }),
{
    reveal(decoded_bit);
    lemma_refill_aligned(input, d.4, d.5, d.1, d.2, d.3, fb);
    let f = refilled(input, d.4, d.5, d.1, d.2, d.3);
    let (prob, bit0) = fb[0];
    let rest = fb.drop_first();
    lemma_split(f.1, f.2, prob);
    let n = narrowed(f.1, f.2, prob, bit0);
    assert(emitted(f.1, f.2, fb) == emitted(n.0, n.1, rest));
    lemma_code_in_range(n.0, n.1, rest);
}

/// The predictors and bits that code a 4-bit `nibble` under the tree at
/// `ctx`, in order.
pub open spec fn nibble_bits(ctx: int, nibble: int) -> Seq<(int, Bit)> {
    let t = nibble + 16;
    seq![
        (ctx + 1, nibble_bit(nibble, 0)),
        (ctx + t / 8, nibble_bit(nibble, 1)),
        (ctx + t / 4, nibble_bit(nibble, 2)),
        (ctx + t / 2, nibble_bit(nibble, 3)),
    ]
}

/// The predictors and bits that code literal `b` under the subtable at
/// `ctx`.
pub open spec fn literal_bits(ctx: int, b: u8) -> Seq<(int, Bit)> {
    nibble_bits(ctx, (b / 16) as int) + nibble_bits(ctx + 15 * (b / 16 + 1), (b % 16) as int)
}

/// The predictors and bits that code message `m`.
pub open spec fn message_bits(m: Message) -> Seq<(int, Bit)> {
    match m {
        Message::Bit(ctx, b) => seq![(ctx as int, b)],
        Message::Byte(ctx, v) => literal_bits(ctx as int, v.0),
    }
}

/// The predictors and bits that code the messages `ms`, in order.
pub open spec fn messages_bits(ms: Seq<Message>) -> Seq<(int, Bit)>
    decreases ms.len(),
{
    if ms.len() == 0 {
        Seq::empty()
    } else {
        message_bits(ms[0]) + messages_bits(ms.drop_first())
    }
}

/// The coding state after coding the bits `l` one by one.
pub open spec fn code_list(t2: Seq<StateInfo>, s: CodingState, l: Seq<(int, Bit)>) -> CodingState
    decreases l.len(),
{
    if l.len() == 0 {
        s
    } else {
        code_list(t2, coded_bit(t2, s, l[0].0, l[0].1), l.drop_first())
    }
}

/// The probability and bit the range coder sees for each bit of `l`.
pub open spec fn coded_pairs(t2: Seq<StateInfo>, s: CodingState, l: Seq<(int, Bit)>) -> Seq<(u32, Bit)>
    decreases l.len(),
{
    if l.len() == 0 {
        Seq::empty()
    } else {
        seq![(t2[s.0[l[0].0].0 as int].prediction_spec(), l[0].1)] + coded_pairs(
            t2,
            coded_bit(t2, s, l[0].0, l[0].1),
            l.drop_first(),
        )
    }
}

proof fn lemma_code_list_concat(t2: Seq<StateInfo>, s: CodingState, a: Seq<(int, Bit)>, b: Seq<(int, Bit)>)
    ensures
        code_list(t2, s, a + b) == code_list(t2, code_list(t2, s, a), b),
        coded_pairs(t2, s, a + b) == coded_pairs(t2, s, a) + coded_pairs(t2, code_list(t2, s, a), b),
    decreases a.len(),
{
    if a.len() == 0 {
        assert(a + b =~= b);
        assert(Seq::<(u32, Bit)>::empty() + coded_pairs(t2, s, b) =~= coded_pairs(t2, s, b));
    } else {
        let s1 = coded_bit(t2, s, a[0].0, a[0].1);
        assert((a + b).drop_first() =~= a.drop_first() + b);
        assert((a + b)[0] == a[0]);
        lemma_code_list_concat(t2, s1, a.drop_first(), b);
        let head = seq![(t2[s.0[a[0].0].0 as int].prediction_spec(), a[0].1)];
        assert(head + (coded_pairs(t2, s1, a.drop_first()) + coded_pairs(t2, code_list(t2, s1, a.drop_first()), b))
            =~= (head + coded_pairs(t2, s1, a.drop_first())) + coded_pairs(t2, code_list(t2, s1, a.drop_first()), b));
    }
}

proof fn lemma_messages_bits_concat(a: Seq<Message>, b: Seq<Message>)
    ensures
        messages_bits(a + b) == messages_bits(a) + messages_bits(b),
    decreases a.len(),
{
    if a.len() == 0 {
        assert(a + b =~= b);
        assert(Seq::<(int, Bit)>::empty() + messages_bits(b) =~= messages_bits(b));
    } else {
        assert((a + b).drop_first() =~= a.drop_first() + b);
        assert((a + b)[0] == a[0]);
        lemma_messages_bits_concat(a.drop_first(), b);
        assert(message_bits(a[0]) + (messages_bits(a.drop_first()) + messages_bits(b)) =~= (message_bits(a[0])
            + messages_bits(a.drop_first())) + messages_bits(b));
    }
}

/// Coding a message is coding its bits.
proof fn lemma_message_is_bits(t2: Seq<StateInfo>, s: CodingState, m: Message)
    ensures
        coded_message(t2, s, m) == code_list(t2, s, message_bits(m)),
{
    let l = message_bits(m);
    match m {
        Message::Bit(ctx, b) => {
            let s1 = coded_bit(t2, s, ctx as int, b);
            assert(l.len() == 1);
            assert(l[0] == (ctx as int, b));
            assert(code_list(t2, s, l) == code_list(t2, s1, l.drop_first()));
            assert(l.drop_first().len() == 0);
            assert(code_list(t2, s1, l.drop_first()) == s1);
            assert(coded_message(t2, s, m) == s1);
            assert(code_list(t2, s, message_bits(m)) == s1);
        },
        Message::Byte(ctx, v) => {
            let c = ctx as int;
            let h = (v.0 / 16) as int;
            let lo = (v.0 % 16) as int;
            let hb = nibble_bits(c, h);
            let lb = nibble_bits(c + 15 * (h + 1), lo);
            lemma_code_list_concat(t2, s, hb, lb);
            lemma_nibble_is_bits(t2, s, c, h);
            lemma_nibble_is_bits(t2, code_list(t2, s, hb), c + 15 * (h + 1), lo);
            assert(coded_message(t2, s, m) == coded_literal(t2, s, c, v.0));
        },
    }
}

/// Coding a nibble is coding its four bits.
proof fn lemma_nibble_is_bits(t2: Seq<StateInfo>, s: CodingState, ctx: int, nibble: int)
    ensures
        code_list(t2, s, nibble_bits(ctx, nibble)) == coded_nibble(t2, s, ctx, nibble),
{
    let l = nibble_bits(ctx, nibble);
    let s1 = coded_bit(t2, s, l[0].0, l[0].1);
    let s2 = coded_bit(t2, s1, l[1].0, l[1].1);
    let s3 = coded_bit(t2, s2, l[2].0, l[2].1);
    let s4 = coded_bit(t2, s3, l[3].0, l[3].1);
    let l1 = l.drop_first();
    let l2 = l1.drop_first();
    let l3 = l2.drop_first();
    let l4 = l3.drop_first();
    assert(l1[0] == l[1] && l2[0] == l[2] && l3[0] == l[3] && l4.len() == 0);
    assert(code_list(t2, s3, l3) == code_list(t2, s4, l4));
    assert(code_list(t2, s4, l4) == s4);
    assert(code_list(t2, s2, l2) == code_list(t2, s3, l3));
    assert(code_list(t2, s1, l1) == code_list(t2, s2, l2));
    assert(code_list(t2, s, l) == code_list(t2, s1, l1));
}

/// Coding a run of messages is coding all their bits.
proof fn lemma_messages_are_bits(t2: Seq<StateInfo>, s: CodingState, ms: Seq<Message>)
    ensures
        coded_messages(t2, s, ms) == code_list(t2, s, messages_bits(ms)),
    decreases ms.len(),
{
    if ms.len() > 0 {
        let a = ms.drop_last();
        let m = ms.last();
        lemma_messages_are_bits(t2, s, a);
        lemma_messages_bits_concat(a, seq![m]);
        assert(a + seq![m] =~= ms);
        assert(seq![m].drop_first().len() == 0);
        assert(messages_bits(seq![m]) =~= message_bits(m) + messages_bits(seq![m].drop_first()));
        assert(messages_bits(seq![m]) =~= message_bits(m));
        lemma_code_list_concat(t2, s, messages_bits(a), message_bits(m));
        lemma_message_is_bits(t2, coded_messages(t2, s, a), m);
    }
}

/// Renormalizing a range leaves it settled and not inverted.
proof fn lemma_renormalized_settles(low: u32, high: u32)
    requires
        low <= high,
    ensures
        renormalized(low, high).1 <= renormalized(low, high).2,
        !unsettled(renormalized(low, high).1, renormalized(low, high).2),
    decreases 0x1_0000_0000 - (high - low),
{
    if unsettled(low, high) {
        let (l1, h1) = (shift_low(low), shift_high(high));
        assert(h1 - l1 == (high - low) * 256 + 255);
        lemma_renormalized_settles(l1, h1);
    }
}

/// What the coder has emitted, once closed, is what it had emitted plus
/// what it emits for the probabilities and bits still to come.
proof fn lemma_output_is_emitted(t2: Seq<StateInfo>, s: CodingState, l: Seq<(int, Bit)>)
    requires
        s.1 <= s.2,
        !unsettled(s.1, s.2),
    ensures
        closed_output(code_list(t2, s, l)) == s.3 + emitted(s.1, s.2, coded_pairs(t2, s, l)),
    decreases l.len(),
{
    if l.len() == 0 {
        assert(s.3.push(top(s.1) as u8) =~= s.3 + seq![top(s.1) as u8]);
    } else {
        reveal(coded_bit);
        let info = t2[s.0[l[0].0].0 as int];
        let p = info.prediction_spec();
        let n = narrowed(s.1, s.2, p, l[0].1);
        lemma_split(s.1, s.2, p);
        let r = renormalized(n.0, n.1);
        lemma_renormalized_settles(n.0, n.1);
        let s1 = coded_bit(t2, s, l[0].0, l[0].1);
        assert(s1.1 == r.1 && s1.2 == r.2 && s1.3 == s.3 + r.0);
        lemma_output_is_emitted(t2, s1, l.drop_first());
        let rest = coded_pairs(t2, s1, l.drop_first());
        let fb = coded_pairs(t2, s, l);
        assert(fb[0] == (p, l[0].1));
        assert(fb.drop_first() =~= rest);
        assert(emitted(s.1, s.2, fb) == emitted(n.0, n.1, rest));
        lemma_emitted_renormalized(n.0, n.1, rest);
        assert(s.3 + (r.0 + emitted(r.1, r.2, rest)) =~= (s.3 + r.0) + emitted(r.1, r.2, rest));
    }
}

/// Decoding the next bit from a state in step with the encoder gives the
/// bit the encoder coded, and the same predictor update.
proof fn lemma_step_sync(
    t2: Seq<StateInfo>,
    input: Seq<u8>,
    d: DecodingState,
    s: CodingState,
    l: Seq<(int, Bit)>,
    rest: Seq<(u32, Bit)>,
)
    requires
        l.len() > 0,
        d.0 == s.0,
        aligned(input, d, coded_pairs(t2, s, l) + rest),
    ensures
        ({
            let (d2, b) = decoded_bit(t2, input, d, l[0].0);
            let s1 = coded_bit(t2, s, l[0].0, l[0].1);
            &&& b == l[0].1
            &&& d2.0 == s1.0
            &&& aligned(input, d2, coded_pairs(t2, s1, l.drop_first()) + rest)
        }),
{
    let s1 = coded_bit(t2, s, l[0].0, l[0].1);
    let fb = coded_pairs(t2, s, l) + rest;
    assert(fb[0] == (t2[s.0[l[0].0].0 as int].prediction_spec(), l[0].1));
    assert(fb.drop_first() =~= coded_pairs(t2, s1, l.drop_first()) + rest);
    lemma_decode_bit_step(t2, input, d, l[0].0, fb);
    reveal(coded_bit);
}

/// Decoding a nibble in step with the encoder gives the coded nibble.
proof fn lemma_nibble_sync(
    t2: Seq<StateInfo>,
    input: Seq<u8>,
    d: DecodingState,
    s: CodingState,
    ctx: int,
    nibble: int,
    rest: Seq<(u32, Bit)>,
)
    requires
        0 <= nibble < 16,
        d.0 == s.0,
        aligned(input, d, coded_pairs(t2, s, nibble_bits(ctx, nibble)) + rest),
    ensures
        ({
            let (d2, v) = decoded_nibble(t2, input, d, ctx);
            &&& v == nibble
            &&& d2.0 == code_list(t2, s, nibble_bits(ctx, nibble)).0
            &&& aligned(input, d2, rest)
        }),
{
    let l = nibble_bits(ctx, nibble);
    let l1 = l.drop_first();
    let l2 = l1.drop_first();
    let l3 = l2.drop_first();
    let l4 = l3.drop_first();
    assert(l1[0] == l[1] && l2[0] == l[2] && l3[0] == l[3] && l4.len() == 0);
    lemma_step_sync(t2, input, d, s, l, rest);
    let (d1, c1) = decoded_bit(t2, input, d, ctx + 1);
    let s1 = coded_bit(t2, s, l[0].0, l[0].1);
    let t1 = 2 + c1.value();
    assert(ctx + t1 == l1[0].0);
    lemma_step_sync(t2, input, d1, s1, l1, rest);
    let (d2, c2) = decoded_bit(t2, input, d1, ctx + t1);
    let s2 = coded_bit(t2, s1, l1[0].0, l1[0].1);
    let tt2 = 2 * t1 + c2.value();
    assert(ctx + tt2 == l2[0].0);
    lemma_step_sync(t2, input, d2, s2, l2, rest);
    let (d3, c3) = decoded_bit(t2, input, d2, ctx + tt2);
    let s3 = coded_bit(t2, s2, l2[0].0, l2[0].1);
    let tt3 = 2 * tt2 + c3.value();
    assert(ctx + tt3 == l3[0].0);
    lemma_step_sync(t2, input, d3, s3, l3, rest);
    let (d4, c4) = decoded_bit(t2, input, d3, ctx + tt3);
    let s4 = coded_bit(t2, s3, l3[0].0, l3[0].1);
    assert(2 * tt3 + c4.value() - 16 == nibble);
    assert(coded_pairs(t2, s4, l4) =~= Seq::<(u32, Bit)>::empty());
    assert(Seq::<(u32, Bit)>::empty() + rest =~= rest);
    assert(code_list(t2, s4, l4) == s4);
    assert(code_list(t2, s3, l3) == code_list(t2, s4, l4));
    assert(code_list(t2, s2, l2) == code_list(t2, s3, l3));
    assert(code_list(t2, s1, l1) == code_list(t2, s2, l2));
    assert(code_list(t2, s, l) == code_list(t2, s1, l1));
}

/// Decoding a literal in step with the encoder gives the coded byte.
proof fn lemma_literal_sync(
    t2: Seq<StateInfo>,
    input: Seq<u8>,
    d: DecodingState,
    s: CodingState,
    ctx: int,
    b: u8,
    rest: Seq<(u32, Bit)>,
)
    requires
        d.0 == s.0,
        aligned(input, d, coded_pairs(t2, s, literal_bits(ctx, b)) + rest),
    ensures
        ({
            let (d2, v) = decoded_literal(t2, input, d, ctx);
            &&& v == b
            &&& d2.0 == code_list(t2, s, literal_bits(ctx, b)).0
            &&& aligned(input, d2, rest)
        }),
{
    let h = (b / 16) as int;
    let lo = (b % 16) as int;
    let hb = nibble_bits(ctx, h);
    let lb = nibble_bits(ctx + 15 * (h + 1), lo);
    lemma_code_list_concat(t2, s, hb, lb);
    let sh = code_list(t2, s, hb);
    let rest1 = coded_pairs(t2, sh, lb) + rest;
    assert(coded_pairs(t2, s, hb + lb) + rest =~= coded_pairs(t2, s, hb) + rest1);
    lemma_nibble_sync(t2, input, d, s, ctx, h, rest1);
    let (d1, high) = decoded_nibble(t2, input, d, ctx);
    lemma_nibble_sync(t2, input, d1, sh, ctx + 15 * (high + 1), lo, rest);
    let (d2, low) = decoded_nibble(t2, input, d1, ctx + 15 * (high + 1));
    assert((high * 16 + low) as u8 == b);
}

proof fn lemma_messages_bits_one(a: Message)
    ensures
        messages_bits(seq![a]) == message_bits(a),
{
    assert(seq![a].drop_first().len() == 0);
    assert(messages_bits(seq![a].drop_first()) == Seq::<(int, Bit)>::empty());
    assert(message_bits(a) + Seq::<(int, Bit)>::empty() =~= message_bits(a));
}

proof fn lemma_messages_bits_three(a: Message, b: Message, c: Message)
    ensures
        messages_bits(seq![a, b, c]) == message_bits(a) + (message_bits(b) + message_bits(c)),
{
    let m = seq![a, b, c];
    assert(m.drop_first() =~= seq![b, c]);
    assert(seq![b, c].drop_first() =~= seq![c]);
    lemma_messages_bits_one(c);
    assert(messages_bits(seq![b, c]) == message_bits(seq![b, c][0]) + messages_bits(seq![b, c].drop_first()));
    assert(messages_bits(seq![b, c]) == message_bits(b) + message_bits(c));
    assert(messages_bits(m) == message_bits(m[0]) + messages_bits(m.drop_first()));
}

/// The facts that the three cases of a symbol share.
pub open spec fn symbol_requires(
    t2: Seq<StateInfo>,
    input: Seq<u8>,
    d: DecodingState,
    s: CodingState,
    info: BridgedContextInfo,
    o: ByteMatched,
    x: u8,
    rest: Seq<(u32, Bit)>,
) -> bool {
    &&& info.wf()
    &&& d.0 == s.0
    &&& aligned(input, d, coded_pairs(t2, s, messages_bits(decision_messages(info, o, x))) + rest)
}

/// What decoding a symbol in step with the encoder gives.
pub open spec fn symbol_ensures(
    t2: Seq<StateInfo>,
    input: Seq<u8>,
    d: DecodingState,
    s: CodingState,
    info: BridgedContextInfo,
    o: ByteMatched,
    x: u8,
    rest: Seq<(u32, Bit)>,
) -> bool {
    let (d2, r) = decoded_symbol(t2, input, d, info);
    &&& d2.0 == code_list(t2, s, messages_bits(decision_messages(info, o, x))).0
    &&& aligned(input, d2, rest)
    &&& r == (if o == ByteMatched::Miss && x == info.history_spec().first() {
        None
    } else {
        Some((x, o))
    })
}

proof fn lemma_symbol_first(
    t2: Seq<StateInfo>,
    input: Seq<u8>,
    d: DecodingState,
    s: CodingState,
    info: BridgedContextInfo,
    x: u8,
    rest: Seq<(u32, Bit)>,
)
    requires
        symbol_requires(t2, input, d, s, info, ByteMatched::First, x, rest),
        x == info.history_spec().first(),
    ensures
        symbol_ensures(t2, input, d, s, info, ByteMatched::First, x, rest),
{
    let fc = info.first_context_spec();
    let l = messages_bits(decision_messages(info, ByteMatched::First, x));
    lemma_messages_bits_one(Message::Bit(fc as usize, Bit::Zero));
    assert(l =~= seq![(fc, Bit::Zero)]);
    lemma_step_sync(t2, input, d, s, l, rest);
    let s1 = coded_bit(t2, s, fc, Bit::Zero);
    assert(l.drop_first().len() == 0);
    assert(code_list(t2, s1, l.drop_first()) == s1);
    assert(coded_pairs(t2, s1, l.drop_first()) + rest =~= rest);
}

proof fn lemma_symbol_miss(
    t2: Seq<StateInfo>,
    input: Seq<u8>,
    d: DecodingState,
    s: CodingState,
    info: BridgedContextInfo,
    x: u8,
    rest: Seq<(u32, Bit)>,
)
    requires
        symbol_requires(t2, input, d, s, info, ByteMatched::Miss, x, rest),
    ensures
        symbol_ensures(t2, input, d, s, info, ByteMatched::Miss, x, rest),
{
    let fc = info.first_context_spec();
    let sc = info.second_context_spec();
    let lc = info.literal_context_spec();
    let l = messages_bits(decision_messages(info, ByteMatched::Miss, x));
    lemma_messages_bits_three(
        Message::Bit(fc as usize, Bit::One),
        Message::Bit(sc as usize, Bit::Zero),
        Message::Byte(lc as usize, Byte(x)),
    );
    let lit = literal_bits(lc, x);
    assert(l =~= seq![(fc, Bit::One), (sc, Bit::Zero)] + lit);
    lemma_step_sync(t2, input, d, s, l, rest);
    let (d1, b1) = decoded_bit(t2, input, d, fc);
    let s1 = coded_bit(t2, s, fc, Bit::One);
    let l1 = l.drop_first();
    lemma_step_sync(t2, input, d1, s1, l1, rest);
    let (d2, b2) = decoded_bit(t2, input, d1, sc);
    let s2 = coded_bit(t2, s1, sc, Bit::Zero);
    let l2 = l1.drop_first();
    assert(l2 =~= lit);
    lemma_literal_sync(t2, input, d2, s2, lc, x, rest);
    assert(code_list(t2, s1, l1) == code_list(t2, s2, l2));
    assert(code_list(t2, s, l) == code_list(t2, s1, l1));
}

proof fn lemma_symbol_match(
    t2: Seq<StateInfo>,
    input: Seq<u8>,
    d: DecodingState,
    s: CodingState,
    info: BridgedContextInfo,
    o: ByteMatched,
    x: u8,
    rest: Seq<(u32, Bit)>,
)
    requires
        symbol_requires(t2, input, d, s, info, o, x, rest),
        o == ByteMatched::Second ==> x == info.history_spec().second(),
        o == ByteMatched::Third ==> x == info.history_spec().third(),
        o == ByteMatched::Second || o == ByteMatched::Third,
    ensures
        symbol_ensures(t2, input, d, s, info, o, x, rest),
{
    let fc = info.first_context_spec();
    let sc = info.second_context_spec();
    let tc = info.third_context_spec();
    let l = messages_bits(decision_messages(info, o, x));
    let last = if o == ByteMatched::Second {
        Bit::Zero
    } else {
        Bit::One
    };
    lemma_messages_bits_three(
        Message::Bit(fc as usize, Bit::One),
        Message::Bit(sc as usize, Bit::One),
        Message::Bit(tc as usize, last),
    );
    assert(l =~= seq![(fc, Bit::One), (sc, Bit::One), (tc, last)]);
    lemma_step_sync(t2, input, d, s, l, rest);
    let (d1, b1) = decoded_bit(t2, input, d, fc);
    let s1 = coded_bit(t2, s, fc, Bit::One);
    let l1 = l.drop_first();
    lemma_step_sync(t2, input, d1, s1, l1, rest);
    let (d2, b2) = decoded_bit(t2, input, d1, sc);
    let s2 = coded_bit(t2, s1, sc, Bit::One);
    let l2 = l1.drop_first();
    lemma_step_sync(t2, input, d2, s2, l2, rest);
    let s3 = coded_bit(t2, s2, tc, last);
    let l3 = l2.drop_first();
    assert(l3.len() == 0);
    assert(code_list(t2, s3, l3) == s3);
    assert(coded_pairs(t2, s3, l3) + rest =~= rest);
    assert(code_list(t2, s2, l2) == code_list(t2, s3, l3));
    assert(code_list(t2, s1, l1) == code_list(t2, s2, l2));
    assert(code_list(t2, s, l) == code_list(t2, s1, l1));
}

/// Decoding a symbol in step with the encoder gives back the coded byte
/// and outcome, or the end of the stream for a literal equal to the first
/// byte.
proof fn lemma_symbol_sync(
    t2: Seq<StateInfo>,
    input: Seq<u8>,
    d: DecodingState,
    s: CodingState,
    info: BridgedContextInfo,
    o: ByteMatched,
    x: u8,
    rest: Seq<(u32, Bit)>,
)
    requires
        symbol_requires(t2, input, d, s, info, o, x, rest),
        o == outcome(info.history_spec().first(), info.history_spec().second(), info.history_spec().third(), x)
            || (o == ByteMatched::Miss && x == info.history_spec().first()),
    ensures
        symbol_ensures(t2, input, d, s, info, o, x, rest),
{
    match o {
        ByteMatched::First => lemma_symbol_first(t2, input, d, s, info, x, rest),
        ByteMatched::Miss => lemma_symbol_miss(t2, input, d, s, info, x, rest),
        _ => lemma_symbol_match(t2, input, d, s, info, o, x, rest),
    }
}

/// The messages for the bytes of `data` from `k` on, then the end marker.
pub open spec fn remaining_messages(t1: Seq<HistoryState>, data: Seq<u8>, k: int) -> Seq<Message> {
    let all = primary_messages(t1, fresh_primary(), data) + end_messages(
        t1,
        primary_after(t1, fresh_primary(), data),
    );
    let done = primary_messages(t1, fresh_primary(), data.subrange(0, k));
    all.subrange(done.len() as int, all.len() as int)
}

/// The messages for a prefix of the data begin the messages for a longer
/// prefix.
proof fn lemma_messages_prefix(t1: Seq<HistoryState>, data: Seq<u8>, k: int, j: int)
    requires
        0 <= k <= j <= data.len(),
    ensures
        ({
            let a = primary_messages(t1, fresh_primary(), data.subrange(0, k));
            let b = primary_messages(t1, fresh_primary(), data.subrange(0, j));
            a.len() <= b.len() && b.subrange(0, a.len() as int) == a
        }),
    decreases j - k,
{
    let a = primary_messages(t1, fresh_primary(), data.subrange(0, k));
    if k == j {
        assert(a.subrange(0, a.len() as int) =~= a);
    } else {
        lemma_messages_prefix(t1, data, k, j - 1);
        let b1 = primary_messages(t1, fresh_primary(), data.subrange(0, j - 1));
        let pj = data.subrange(0, j);
        assert(pj.drop_last() =~= data.subrange(0, j - 1));
        let b = primary_messages(t1, fresh_primary(), pj);
        assert(b.subrange(0, a.len() as int) =~= b1.subrange(0, a.len() as int));
    }
}

/// The remaining messages at `k` are those of byte `k`, then the remaining
/// messages at `k + 1`.
proof fn lemma_remaining_step(t1: Seq<HistoryState>, data: Seq<u8>, k: int)
    requires
        0 <= k < data.len(),
    ensures
        ({
            let m = primary_after(t1, fresh_primary(), data.subrange(0, k));
            let x = data[k];
            remaining_messages(t1, data, k) == decision_messages(model_info(t1, m), model_outcome(m, x), x)
                + remaining_messages(t1, data, k + 1)
        }),
{
    let m = primary_after(t1, fresh_primary(), data.subrange(0, k));
    let x = data[k];
    let dm = decision_messages(model_info(t1, m), model_outcome(m, x), x);
    let pk = primary_messages(t1, fresh_primary(), data.subrange(0, k));
    let prefix = data.subrange(0, k + 1);
    assert(prefix.drop_last() =~= data.subrange(0, k));
    assert(prefix.last() == x);
    let pk1 = primary_messages(t1, fresh_primary(), prefix);
    assert(pk1 == pk + dm);
    lemma_messages_prefix(t1, data, k + 1, data.len() as int);
    assert(data.subrange(0, data.len() as int) =~= data);
    let all = primary_messages(t1, fresh_primary(), data) + end_messages(
        t1,
        primary_after(t1, fresh_primary(), data),
    );
    let pn = primary_messages(t1, fresh_primary(), data);
    assert(all.subrange(0, pk1.len() as int) =~= pn.subrange(0, pk1.len() as int));
    assert(pn.subrange(0, pk1.len() as int) == pk + dm);
    assert forall|i: int| 0 <= i < dm.len() implies all[pk.len() + i] == dm[i] by {
        assert(all.subrange(0, pk1.len() as int)[pk.len() + i] == (pk + dm)[pk.len() + i]);
    }
    assert(all.subrange(pk.len() as int, all.len() as int) =~= dm + all.subrange(pk1.len() as int, all.len() as int));
}

/// The coding state after the first `k` bytes.
pub open spec fn coding_after(t1: Seq<HistoryState>, t2: Seq<StateInfo>, data: Seq<u8>, k: int) -> CodingState {
    coded_messages(t2, fresh_coding(), primary_messages(t1, fresh_primary(), data.subrange(0, k)))
}

/// The probabilities and bits still to be coded after the first `k` bytes.
pub open spec fn remaining_pairs(t1: Seq<HistoryState>, t2: Seq<StateInfo>, data: Seq<u8>, k: int) -> Seq<(u32, Bit)> {
    coded_pairs(t2, coding_after(t1, t2, data, k), messages_bits(remaining_messages(t1, data, k)))
}

/// After `k` symbols the decompression of the compressed `data` has
/// rebuilt the first `k` bytes, with both models in step with compression.
proof fn lemma_run(t1: Seq<HistoryState>, t2: Seq<StateInfo>, data: Seq<u8>, k: int)
    requires
        0 <= k <= data.len(),
    ensures
        ({
            let payload = compressed(t1, t2, data).subrange(4, compressed(t1, t2, data).len() as int);
            let st = decoding_after(t1, t2, payload, decode_start(), k as nat);
            &&& st.0 == primary_after(t1, fresh_primary(), data.subrange(0, k))
            &&& st.1.0 == coding_after(t1, t2, data, k).0
            &&& aligned(payload, st.1, remaining_pairs(t1, t2, data, k))
            &&& st.2 == data.subrange(0, k)
            &&& !st.3
        }),
    decreases k,
{
    let c = compressed(t1, t2, data);
    let payload = c.subrange(4, c.len() as int);
    let all = primary_messages(t1, fresh_primary(), data) + end_messages(
        t1,
        primary_after(t1, fresh_primary(), data),
    );
    lemma_messages_are_bits(t2, fresh_coding(), all);
    lemma_output_is_emitted(t2, fresh_coding(), messages_bits(all));
    assert(payload =~= closed_output(coded_messages(t2, fresh_coding(), all)));
    if k == 0 {
        let fb = remaining_pairs(t1, t2, data, 0);
        assert(data.subrange(0, 0) =~= Seq::<u8>::empty());
        assert(remaining_messages(t1, data, 0) =~= all);
        assert(coding_after(t1, t2, data, 0) == fresh_coding());
        assert(fresh_coding().3 + emitted(0, 0xFFFF_FFFF, fb) =~= emitted(0, 0xFFFF_FFFF, fb));
        let d0 = decode_start().1;
        assert(shift_high(0) == 0xFFu32);
        assert(shift_high(0xFF) == 0xFFFFu32);
        assert(shift_high(0xFFFF) == 0xFF_FFFFu32);
        assert(shift_high(0xFF_FFFF) == 0xFFFF_FFFFu32);
        assert(shift_low(0) == 0u32);
        let e = emitted(0, 0, fb);
        assert(e == seq![0u8] + emitted(0, 0xFF, fb));
        assert(emitted(0, 0xFF, fb) == seq![0u8] + emitted(0, 0xFFFF, fb));
        assert(emitted(0, 0xFFFF, fb) == seq![0u8] + emitted(0, 0xFF_FFFF, fb));
        assert(emitted(0, 0xFF_FFFF, fb) == seq![0u8] + payload);
        assert(e =~= seq![0u8, 0u8, 0u8, 0u8] + payload);
        assert(window(e, 0) == 0);
        assert forall|j: int| j >= 0 implies #[trigger] byte_at(payload, j) == at(e, j - 0 + 4) by {}
        assert(d0.0 =~= fresh_coding().0);
    } else {
        lemma_run(t1, t2, data, k - 1);
        let st = decoding_after(t1, t2, payload, decode_start(), (k - 1) as nat);
        let m = primary_after(t1, fresh_primary(), data.subrange(0, k - 1));
        let x = data[k - 1];
        let o = model_outcome(m, x);
        let info = model_info(t1, m);
        let dm = decision_messages(info, o, x);
        let cs = coding_after(t1, t2, data, k - 1);
        lemma_remaining_step(t1, data, k - 1);
        let rest_ms = remaining_messages(t1, data, k);
        lemma_messages_bits_concat(dm, rest_ms);
        lemma_code_list_concat(t2, cs, messages_bits(dm), messages_bits(rest_ms));
        lemma_messages_are_bits(t2, cs, dm);
        let pk1 = data.subrange(0, k);
        assert(pk1.drop_last() =~= data.subrange(0, k - 1));
        assert(pk1.last() == x);
        lemma_coded_concat(t2, fresh_coding(), primary_messages(t1, fresh_primary(), data.subrange(0, k - 1)), dm);
        assert(coding_after(t1, t2, data, k) == coded_messages(t2, cs, dm));
        lemma_aligned_padding(payload, st.1, remaining_pairs(t1, t2, data, k - 1));
        assert(!stopped(st));
        assert(m.2 >= 0);
        BridgedContextInfo::lemma_spec_new(slot_of(m), t1[slot_of(m).state_index()], m.1, m.2);
        lemma_symbol_sync(t2, payload, st.1, cs, info, o, x, remaining_pairs(t1, t2, data, k));
        assert(data.subrange(0, k - 1).push(x) =~= data.subrange(0, k));
    }
}

/// Decompressing the compressed form of `data` stops at the end marker
/// with exactly `data`, within `data.len() + 1` symbols.
pub proof fn lemma_stream_round_trip(t1: Seq<HistoryState>, t2: Seq<StateInfo>, data: Seq<u8>, limit: nat)
    requires
        data.len() < limit,
    ensures
        ({
            let c = compressed(t1, t2, data);
            decompressed_by(t1, t2, c.subrange(4, c.len() as int), data, limit)
        }),
{
    let n = data.len() as int;
    let c = compressed(t1, t2, data);
    let payload = c.subrange(4, c.len() as int);
    lemma_run(t1, t2, data, n);
    let st = decoding_after(t1, t2, payload, decode_start(), n as nat);
    assert(data.subrange(0, n) =~= data);
    let m = primary_after(t1, fresh_primary(), data);
    let em = end_messages(t1, m);
    let all = primary_messages(t1, fresh_primary(), data) + em;
    assert(remaining_messages(t1, data, n) =~= em);
    let info = model_info(t1, m);
    let fb = remaining_pairs(t1, t2, data, n);
    assert(fb + Seq::<(u32, Bit)>::empty() =~= fb);
    lemma_aligned_padding(payload, st.1, fb);
    assert(m.2 >= 0);
    BridgedContextInfo::lemma_spec_new(slot_of(m), t1[slot_of(m).state_index()], m.1, m.2);
    lemma_symbol_sync(
        t2,
        payload,
        st.1,
        coding_after(t1, t2, data, n),
        info,
        ByteMatched::Miss,
        slot_of(m).first(),
        Seq::empty(),
    );
    let last = decoding_after(t1, t2, payload, decode_start(), (n + 1) as nat);
    assert(stopped(last) && last.2 == data);
    assert(decompressed_by(t1, t2, payload, data, limit));
}

} // verus!
