//! What a compressed stream is, as a function of the input: the primary
//! model's decisions for each byte, coded by the secondary model and the
//! range coder.
use crate::bit::Bit;
use crate::bridged::{BridgedContextInfo, SECONDARY_CONTEXT_SIZE};
use crate::coder::top;
use crate::decoder::{decoded_symbol, DecodingState};
use crate::encoder::{coded_messages, decision_messages, info_of, CodingState};
use crate::history::ByteHistory;
use crate::history_state::{outcome, ranked, ByteMatched, HistoryState};
use crate::message::Message;
use crate::primary::{next_hash, PrimaryContext, PRIMARY_CONTEXT_SIZE};
use crate::secondary::BitState;
use crate::secondary_state::StateInfo;
use vstd::prelude::*;

verus! {

/// What the primary model holds: its slots, the previous byte and the
/// context hash.
pub type PrimaryModel = (Seq<ByteHistory>, u8, int);

/// The state of a primary model.
pub open spec fn model_of(p: PrimaryContext) -> PrimaryModel {
    (p.slots(), p.previous_byte_spec(), p.hash_spec())
}

/// A primary model that has seen nothing.
pub open spec fn fresh_primary() -> PrimaryModel {
    (Seq::new(PRIMARY_CONTEXT_SIZE as nat, |i: int| ByteHistory::new_spec()), 0, 0)
}

/// The current slot.
pub open spec fn slot_of(m: PrimaryModel) -> ByteHistory {
    m.0[m.2]
}

/// The context indices of the current slot under state table `t1`.
pub open spec fn model_info(t1: Seq<HistoryState>, m: PrimaryModel) -> BridgedContextInfo {
    BridgedContextInfo::spec_new(slot_of(m), t1[slot_of(m).state_index()], m.1, m.2)
}

/// The outcome of byte `x` in the current slot.
pub open spec fn model_outcome(m: PrimaryModel, x: u8) -> ByteMatched {
    outcome(slot_of(m).first(), slot_of(m).second(), slot_of(m).third(), x)
}

/// The primary model after byte `x` came with outcome `o`.
pub open spec fn model_step_with(t1: Seq<HistoryState>, m: PrimaryModel, x: u8, o: ByteMatched) -> PrimaryModel {
    let s = slot_of(m);
    let r = ranked(s.first(), s.second(), s.third(), x, o);
    let next = ByteHistory::spec_pack(t1[s.state_index()].next_spec(o), r.0, r.1, r.2);
    (m.0.update(m.2, next), x, next_hash(m.2, x))
}

/// The primary model after byte `x`.
pub open spec fn model_step(t1: Seq<HistoryState>, m: PrimaryModel, x: u8) -> PrimaryModel {
    model_step_with(t1, m, x, model_outcome(m, x))
}

/// The primary model after every byte of `input`.
pub open spec fn primary_after(t1: Seq<HistoryState>, m: PrimaryModel, input: Seq<u8>) -> PrimaryModel
    decreases input.len(),
{
    if input.len() == 0 {
        m
    } else {
        model_step(t1, primary_after(t1, m, input.drop_last()), input.last())
    }
}

/// The messages the primary model sends for every byte of `input`.
pub open spec fn primary_messages(t1: Seq<HistoryState>, m: PrimaryModel, input: Seq<u8>) -> Seq<Message>
    decreases input.len(),
{
    if input.len() == 0 {
        Seq::empty()
    } else {
        let before = primary_after(t1, m, input.drop_last());
        primary_messages(t1, m, input.drop_last()) + decision_messages(
            model_info(t1, before),
            model_outcome(before, input.last()),
            input.last(),
        )
    }
}

/// The messages that end the stream: a literal equal to the first byte.
pub open spec fn end_messages(t1: Seq<HistoryState>, m: PrimaryModel) -> Seq<Message> {
    decision_messages(model_info(t1, m), ByteMatched::Miss, slot_of(m).first())
}

/// A secondary model with every predictor fresh and a coder over the whole
/// range with nothing emitted.
pub open spec fn fresh_coding() -> CodingState {
    (Seq::new(SECONDARY_CONTEXT_SIZE as nat, |i: int| BitState(0)), 0, 0xFFFF_FFFF, Seq::empty())
}

/// The bytes a coder in state `cs` has emitted once it is closed.
pub open spec fn closed_output(cs: CodingState) -> Seq<u8> {
    cs.3.push(top(cs.1) as u8)
}

/// The stream header.
pub open spec fn header() -> Seq<u8> {
    seq![0x73u8, 0x52u8, 0x78u8, 0x00u8]
}

/// The compressed form of `input` under primary state table `t1` and
/// secondary state table `t2`: the header, then the coded decisions for
/// every byte and for the end of the stream.
pub open spec fn compressed(t1: Seq<HistoryState>, t2: Seq<StateInfo>, input: Seq<u8>) -> Seq<u8> {
    let m = primary_after(t1, fresh_primary(), input);
    let ms = primary_messages(t1, fresh_primary(), input) + end_messages(t1, m);
    header() + closed_output(coded_messages(t2, fresh_coding(), ms))
}

/// Coding two runs of messages one after the other codes their
/// concatenation.
pub proof fn lemma_coded_concat(t2: Seq<StateInfo>, s: CodingState, a: Seq<Message>, b: Seq<Message>)
    ensures
        coded_messages(t2, s, a + b) == coded_messages(t2, coded_messages(t2, s, a), b),
    decreases b.len(),
{
    if b.len() == 0 {
        assert(a + b =~= a);
    } else {
        lemma_coded_concat(t2, s, a, b.drop_last());
        assert((a + b).drop_last() =~= a + b.drop_last());
        assert((a + b).last() == b.last());
    }
}

/// A primary model step as the context performs it is `model_step_with`.
pub proof fn lemma_after_is_step(p: PrimaryContext, next: PrimaryContext, x: u8, o: ByteMatched)
    requires
        p.wf(),
        p.after(next, p.states_spec()@[p.current().state_index()], x, o),
    ensures
        model_of(next) == model_step_with(p.states_spec()@, model_of(p), x, o),
        info_of(p) == model_info(p.states_spec()@, model_of(p)),
{
    let m = model_of(p);
    let s = slot_of(m);
    let st = p.states_spec()@[s.state_index()].next_spec(o);
    let r = ranked(s.first(), s.second(), s.third(), x, o);
    let h = next.slots()[p.hash_spec()];
    assert(0 <= st < 256);
    ByteHistory::lemma_pack_fields(h, st, r.0, r.1, r.2);
    assert(model_of(next).0 =~= model_step_with(p.states_spec()@, m, x, o).0);
}

/// A decompression in progress: the primary model, the decoding state,
/// the bytes decoded so far, and whether the end of the stream was found.
pub type DecodeRun = (PrimaryModel, DecodingState, Seq<u8>, bool);

/// Decoding has stopped: the end of the stream was found, or the decoder
/// read more than four bytes past the end of its input.
pub open spec fn stopped(st: DecodeRun) -> bool {
    st.3 || st.1.5 > 4
}

/// One more symbol decoded from `input`, unless decoding has stopped.
pub open spec fn decoding_step(t1: Seq<HistoryState>, t2: Seq<StateInfo>, input: Seq<u8>, st: DecodeRun) -> DecodeRun {
    if stopped(st) {
        st
    } else {
        let (ds, sym) = decoded_symbol(t2, input, st.1, model_info(t1, st.0));
        match sym {
            None => (st.0, ds, st.2, true),
            Some((x, o)) => (model_step_with(t1, st.0, x, o), ds, st.2.push(x), false),
        }
    }
}

/// The decompression after `n` steps.
pub open spec fn decoding_after(
    t1: Seq<HistoryState>,
    t2: Seq<StateInfo>,
    input: Seq<u8>,
    st: DecodeRun,
    n: nat,
) -> DecodeRun
    decreases n,
{
    if n == 0 {
        st
    } else {
        decoding_step(t1, t2, input, decoding_after(t1, t2, input, st, (n - 1) as nat))
    }
}

/// A decompression that has not started: fresh models, an empty window
/// and range, nothing read.
pub open spec fn decode_start() -> DecodeRun {
    (
        fresh_primary(),
        (Seq::new(SECONDARY_CONTEXT_SIZE as nat, |i: int| BitState(0)), 0, 0, 0, 0, 0),
        Seq::empty(),
        false,
    )
}

/// `out` is what `input` (a stream after its header) decompresses to:
/// what decoding has produced once it stops, or after `limit` steps if it
/// has not stopped by then.
pub open spec fn decompressed_by(
    t1: Seq<HistoryState>,
    t2: Seq<StateInfo>,
    input: Seq<u8>,
    out: Seq<u8>,
    limit: nat,
) -> bool {
    exists|n: nat|
        {
            let st = #[trigger] decoding_after(t1, t2, input, decode_start(), n);
            &&& n <= limit
            &&& out == st.2
            &&& (stopped(st) || n == limit)
        }
}

} // verus!
