//! Whole-stream compression and decompression in memory, with the stream
//! header.
use crate::bridged::BridgedContextInfo;
use crate::decoder::{decoded_symbol, CombinedContextDecoder};
use crate::encoder::{
    coded_messages, decision_messages, in_range, info_of, unpacked, PrimaryContextEncoder,
    SecondaryContextEncoder,
};
use crate::error::AnyError;
use crate::history_state::{history_states, ByteMatched, HistoryState};
use crate::message::{Message, PackedMessage};
use crate::model::{
    compressed, decode_start, decoding_after, decompressed_by, end_messages, fresh_coding,
    fresh_primary, header, lemma_after_is_step, lemma_coded_concat, model_of, model_outcome,
    primary_after, primary_messages, stopped,
};
use crate::primary::PrimaryContext;
use crate::round_trip::lemma_stream_round_trip;
use crate::secondary_state::{SecondaryStateTable, StateInfo};
use vstd::prelude::*;

verus! {

/// `s` starts with the stream header.
pub open spec fn has_header(s: Seq<u8>) -> bool {
    s.len() >= 4 && s.subrange(0, 4) == header()
}

/// The stream header.
pub fn header_bytes() -> (r: Vec<u8>)
    ensures
        r@ == header(),
{
    let r = vec![0x73u8, 0x52u8, 0x78u8, 0x00u8];
    assert(r@ =~= header());
    r
}

/// Checks that `input` starts with the stream header.
pub fn check_header(input: &[u8]) -> (r: Result<(), AnyError>)
    ensures
        r is Ok <==> has_header(input@),
        r is Err ==> (r matches Err(AnyError::CorruptHeader)),
{
    if input.len() < 4 || input[0] != 0x73 || input[1] != 0x52 || input[2] != 0x78 || input[3] != 0 {
        proof {
            if input@.len() >= 4 && has_header(input@) {
                assert(input@.subrange(0, 4)[0] == input@[0]);
                assert(input@.subrange(0, 4)[1] == input@[1]);
                assert(input@.subrange(0, 4)[2] == input@[2]);
                assert(input@.subrange(0, 4)[3] == input@[3]);
            }
        }
        return Err(AnyError::CorruptHeader);
    }
    assert(input@.subrange(0, 4) =~= header());
    Ok(())
}

/// Every message that codes a byte under a well-formed context stays
/// inside the secondary table.
pub proof fn lemma_decisions_in_range(p: PrimaryContext, m: ByteMatched, x: u8)
    requires
        p.wf(),
    ensures
        forall|i: int|
            0 <= i < decision_messages(info_of(p), m, x).len() ==> in_range(
                #[trigger] decision_messages(info_of(p), m, x)[i],
            ),
{
    BridgedContextInfo::lemma_spec_new(
        p.current(),
        p.states_spec()@[p.current().state_index()],
        p.previous_byte_spec(),
        p.hash_spec(),
    );
}

/// The packed words of a run of in-range messages are in range.
proof fn lemma_all_in_range(packed: Seq<PackedMessage>, ms: Seq<Message>)
    requires
        unpacked(packed) == Seq::<Message>::empty() + ms,
        forall|i: int| 0 <= i < ms.len() ==> in_range(#[trigger] ms[i]),
    ensures
        forall|i: int| 0 <= i < packed.len() ==> in_range(#[trigger] packed[i].message()),
{
    assert(Seq::<Message>::empty() + ms =~= ms);
    assert forall|i: int| 0 <= i < packed.len() implies in_range(#[trigger] packed[i].message()) by {
        assert(unpacked(packed)[i] == packed[i].message());
    }
}

/// Codes every message of `messages` and empties it.
fn drain(messages: &mut Vec<PackedMessage>, secondary: &mut SecondaryContextEncoder)
    requires
        old(secondary).wf(),
        forall|i: int| 0 <= i < old(messages)@.len() ==> in_range(#[trigger] old(messages)@[i].message()),
    ensures
        final(secondary).wf(),
        final(messages)@.len() == 0,
        final(secondary).table() == old(secondary).table(),
        final(secondary).states_table() == old(secondary).states_table(),
        final(secondary).state() == coded_messages(
            old(secondary).table(),
            old(secondary).state(),
            unpacked(old(messages)@),
        ),
{
    let ghost start = secondary.state();
    let ghost all = unpacked(messages@);
    let mut i: usize = 0;
    while i < messages.len()
        invariant
            secondary.wf(),
            0 <= i <= messages@.len(),
            messages@ == old(messages)@,
            all == unpacked(messages@),
            all.len() == messages@.len(),
            forall|j: int| 0 <= j < messages@.len() ==> in_range(#[trigger] messages@[j].message()),
            secondary.table() == old(secondary).table(),
            secondary.states_table() == old(secondary).states_table(),
            secondary.state() == coded_messages(secondary.table(), start, all.subrange(0, i as int)),
        decreases messages@.len() - i,
    {
        secondary.encode(messages[i]);
        proof {
            assert(all.subrange(0, i + 1).drop_last() =~= all.subrange(0, i as int));
            assert(all[i as int] == messages@[i as int].message());
        }
        i = i + 1;
    }
    assert(all.subrange(0, i as int) =~= all);
    messages.clear();
}

/// Compresses `input`: the header, then the range-coded decisions for each
/// byte and for the end of the stream.
pub fn encode(input: &[u8]) -> (r: Vec<u8>)
    ensures
        has_header(r@),
        exists|t2: SecondaryStateTable|
            t2.wf() && t2.built() && r@ == compressed(history_states(), t2@, input@),
{
    let mut output: Vec<u8> = header_bytes();
    let mut primary = PrimaryContextEncoder::new();
    let mut secondary = SecondaryContextEncoder::new();
    let ghost t1 = history_states();
    let ghost t2 = secondary.table();
    let ghost tb = secondary.states_table();
    proof {
        assert(model_of(primary.context_spec()).0 =~= fresh_primary().0);
        assert(secondary.state().0 =~= fresh_coding().0);
    }
    let mut messages: Vec<PackedMessage> = Vec::new();
    let mut i: usize = 0;
    while i < input.len()
        invariant
            primary.wf(),
            secondary.wf(),
            0 <= i <= input@.len(),
            messages@.len() == 0,
            output@ == header(),
            primary.context_spec().states_spec()@ == t1,
            model_of(primary.context_spec()) == primary_after(t1, fresh_primary(), input@.subrange(0, i as int)),
            secondary.table() == t2,
            secondary.states_table() == tb,
            tb.wf() && tb.built() && tb@ == t2,
            secondary.state() == coded_messages(
                t2,
                fresh_coding(),
                primary_messages(t1, fresh_primary(), input@.subrange(0, i as int)),
            ),
        decreases input@.len() - i,
    {
        let ghost p = primary.context_spec();
        let ghost m = model_outcome(model_of(p), input@[i as int]);
        let ghost before_cs = secondary.state();
        proof {
            lemma_decisions_in_range(p, m, input@[i as int]);
        }
        primary.encode(input[i], &mut messages);
        proof {
            lemma_all_in_range(messages@, decision_messages(info_of(p), m, input@[i as int]));
            lemma_after_is_step(p, primary.context_spec(), input@[i as int], m);
            let prefix = input@.subrange(0, i + 1);
            assert(prefix.drop_last() =~= input@.subrange(0, i as int));
            assert(prefix.last() == input@[i as int]);
            assert(unpacked(messages@) =~= decision_messages(info_of(p), m, input@[i as int]));
        }
        drain(&mut messages, &mut secondary);
        proof {
            lemma_coded_concat(
                t2,
                fresh_coding(),
                primary_messages(t1, fresh_primary(), input@.subrange(0, i as int)),
                decision_messages(info_of(p), m, input@[i as int]),
            );
        }
        i = i + 1;
    }
    proof {
        let p = primary.context_spec();
        lemma_decisions_in_range(p, ByteMatched::Miss, p.current().first());
        assert(input@.subrange(0, i as int) =~= input@);
    }
    let ghost pe = primary.context_spec();
    primary.finish(&mut messages);
    proof {
        lemma_all_in_range(messages@, decision_messages(info_of(pe), ByteMatched::Miss, pe.current().first()));
        assert(unpacked(messages@) =~= end_messages(t1, model_of(pe)));
    }
    drain(&mut messages, &mut secondary);
    proof {
        lemma_coded_concat(
            t2,
            fresh_coding(),
            primary_messages(t1, fresh_primary(), input@),
            end_messages(t1, model_of(pe)),
        );
    }
    let mut payload = secondary.close();
    let ghost head = output@;
    output.append(&mut payload);
    assert(output@.subrange(0, 4) =~= head);
    assert(output@ =~= compressed(t1, t2, input@));
    output
}

/// Decompresses `input`: checks the header, then decodes symbols until the
/// end of the stream. Past the end of `input` the decoder reads `0xFF`
/// bytes, so a truncated stream decodes to some bytes rather than failing;
/// decoding stops there once more than four such bytes have been read.
pub fn decode(input: &[u8]) -> (r: Result<Vec<u8>, AnyError>)
    ensures
        !has_header(input@) ==> (r matches Err(AnyError::CorruptHeader)),
        has_header(input@) ==> (r matches Ok(out) && exists|t2: SecondaryStateTable|
            t2.wf() && t2.built() && decompressed_by(
                history_states(),
                t2@,
                input@.subrange(4, input@.len() as int),
                out@,
                usize::MAX as nat,
            )),
{
    if check_header(input).is_err() {
        return Err(AnyError::CorruptHeader);
    }
    let mut payload: Vec<u8> = Vec::with_capacity(input.len() - 4);
    let mut i: usize = 4;
    while i < input.len()
        invariant
            4 <= i <= input@.len(),
            payload@ == input@.subrange(4, i as int),
        decreases input@.len() - i,
    {
        payload.push(input[i]);
        proof {
            assert(input@.subrange(4, i + 1) =~= input@.subrange(4, i as int).push(input@[i as int]));
        }
        i = i + 1;
    }
    let ghost body = payload@;
    let mut decoder = CombinedContextDecoder::new(payload);
    let ghost t1 = history_states();
    let ghost t2 = decoder.table();
    let ghost tb = decoder.states_table();
    proof {
        assert(model_of(decoder.primary_spec()).0 =~= fresh_primary().0);
        assert(decoder.state().0 =~= decode_start().1.0);
    }
    let mut output: Vec<u8> = Vec::new();
    let mut budget: usize = usize::MAX;
    while budget > 0 && !decoder.exhausted()
        invariant
            decoder.wf(),
            has_header(input@),
            t1 == history_states(),
            body == input@.subrange(4, input@.len() as int),
            decoder.input() == body,
            decoder.table() == t2,
            decoder.states_table() == tb,
            tb.wf() && tb.built() && tb@ == t2,
            decoder.primary_spec().states_spec()@ == t1,
            decoding_after(t1, t2, body, decode_start(), (usize::MAX - budget) as nat) == (
                model_of(decoder.primary_spec()),
                decoder.state(),
                output@,
                false,
            ),
        decreases budget,
    {
        let ghost n = (usize::MAX - budget) as nat;
        let ghost p = decoder.primary_spec();
        match decoder.decode_next() {
            Some(b) => {
                proof {
                    let sym = decoded_symbol(t2, body, decoding_after(t1, t2, body, decode_start(), n).1, info_of(p));
                    let (x, o) = sym.1.unwrap();
                    lemma_after_is_step(p, decoder.primary_spec(), x, o);
                }
                output.push(b.0);
            },
            None => {
                proof {
                    let st = decoding_after(t1, t2, body, decode_start(), n + 1);
                    assert(stopped(st) && st.2 == output@);
                    assert(decompressed_by(t1, t2, body, output@, usize::MAX as nat));
                    assert(tb.wf() && tb.built() && decompressed_by(t1, tb@, body, output@, usize::MAX as nat));

                }
                return Ok(output);
            },
        }
        budget = budget - 1;
    }
    proof {
        let st = decoding_after(t1, t2, body, decode_start(), (usize::MAX - budget) as nat);
        assert(stopped(st) || (usize::MAX - budget) as nat == usize::MAX as nat);
        assert(st.2 == output@);
    }
    Ok(output)
}

/// Compression is a function of the input alone: any two streams that
/// `encode` may return for the same input are equal.
pub proof fn lemma_encode_deterministic(input: Seq<u8>, r1: Seq<u8>, r2: Seq<u8>)
    requires
        exists|t: SecondaryStateTable| t.wf() && t.built() && r1 == compressed(history_states(), t@, input),
        exists|t: SecondaryStateTable| t.wf() && t.built() && r2 == compressed(history_states(), t@, input),
    ensures
        r1 == r2,
{
    let ta = choose|t: SecondaryStateTable| t.wf() && t.built() && r1 == compressed(history_states(), t@, input);
    let tb = choose|t: SecondaryStateTable| t.wf() && t.built() && r2 == compressed(history_states(), t@, input);
    SecondaryStateTable::lemma_unique(ta, tb);
}

/// Once decoding has stopped, further steps change nothing.
proof fn lemma_stopped_stays(
    t1: Seq<HistoryState>,
    t2: Seq<StateInfo>,
    input: Seq<u8>,
    n: nat,
    m: nat,
)
    requires
        n <= m,
        stopped(decoding_after(t1, t2, input, decode_start(), n)),
    ensures
        decoding_after(t1, t2, input, decode_start(), m) == decoding_after(t1, t2, input, decode_start(), n),
    decreases m - n,
{
    if n < m {
        lemma_stopped_stays(t1, t2, input, n, (m - 1) as nat);
    }
}

/// Decompression is a function of the input alone: any two results that
/// `decode` may return for the same input are equal.
pub proof fn lemma_decode_deterministic(input: Seq<u8>, o1: Seq<u8>, o2: Seq<u8>)
    requires
        exists|t: SecondaryStateTable|
            t.wf() && t.built() && decompressed_by(history_states(), t@, input, o1, usize::MAX as nat),
        exists|t: SecondaryStateTable|
            t.wf() && t.built() && decompressed_by(history_states(), t@, input, o2, usize::MAX as nat),
    ensures
        o1 == o2,
{
    let t1 = history_states();
    let ta = choose|t: SecondaryStateTable|
        t.wf() && t.built() && decompressed_by(t1, t@, input, o1, usize::MAX as nat);
    let tb = choose|t: SecondaryStateTable|
        t.wf() && t.built() && decompressed_by(t1, t@, input, o2, usize::MAX as nat);
    SecondaryStateTable::lemma_unique(ta, tb);
    let t2 = ta@;
    let limit = usize::MAX as nat;
    let n1 = choose|n: nat|
        {
            let st = #[trigger] decoding_after(t1, t2, input, decode_start(), n);
            &&& n <= limit
            &&& o1 == st.2
            &&& (stopped(st) || n == limit)
        };
    let n2 = choose|n: nat|
        {
            let st = #[trigger] decoding_after(t1, t2, input, decode_start(), n);
            &&& n <= limit
            &&& o2 == st.2
            &&& (stopped(st) || n == limit)
        };
    let s1 = decoding_after(t1, t2, input, decode_start(), n1);
    let s2 = decoding_after(t1, t2, input, decode_start(), n2);
    if n1 <= n2 {
        if stopped(s1) {
            lemma_stopped_stays(t1, t2, input, n1, n2);
        } else if stopped(s2) {
            lemma_stopped_stays(t1, t2, input, n2, n1);
        }
    } else {
        if stopped(s2) {
            lemma_stopped_stays(t1, t2, input, n2, n1);
        } else if stopped(s1) {
            lemma_stopped_stays(t1, t2, input, n1, n2);
        }
    }
}

/// Round trip: decoding a stream that `encode` may return for `input`
/// gives back `input` (for any input shorter than `usize::MAX` bytes).
pub proof fn lemma_round_trip(input: Seq<u8>, coded: Seq<u8>, out: Seq<u8>)
    requires
        input.len() < usize::MAX,
        exists|t: SecondaryStateTable| t.wf() && t.built() && coded == compressed(history_states(), t@, input),
        exists|t: SecondaryStateTable|
            t.wf() && t.built() && decompressed_by(
                history_states(),
                t@,
                coded.subrange(4, coded.len() as int),
                out,
                usize::MAX as nat,
            ),
    ensures
        out == input,
{
    let ta = choose|t: SecondaryStateTable| t.wf() && t.built() && coded == compressed(history_states(), t@, input);
    let payload = coded.subrange(4, coded.len() as int);
    lemma_stream_round_trip(history_states(), ta@, input, usize::MAX as nat);
    assert(ta.wf() && ta.built() && decompressed_by(history_states(), ta@, payload, input, usize::MAX as nat));
    lemma_decode_deterministic(payload, out, input);
}

} // verus!
