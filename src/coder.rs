//! The 32-bit binary range coder: encoder and decoder with byte-at-a-time
//! renormalization.
use crate::bit::Bit;
use vstd::prelude::*;

verus! {

/// The weight of the top byte of a 32-bit register.
pub const TOP: u32 = 0x0100_0000;

/// The top byte of a register.
pub open spec fn top(x: u32) -> int {
    x as int / TOP as int
}

/// `low` after its top byte has been shifted out.
pub open spec fn shift_low(x: u32) -> u32 {
    ((x as int % TOP as int) * 256) as u32
}

/// `high` after its top byte has been shifted out, filled with ones.
pub open spec fn shift_high(x: u32) -> u32 {
    ((x as int % TOP as int) * 256 + 255) as u32
}

/// The split point of `[low, high]` for a probability of `p / 2^32` that
/// the bit is one.
pub open spec fn middle(low: u32, high: u32, p: u32) -> int {
    low + (high - low) * p / 0x1_0000_0000
}

/// The range that remains after coding `bit` in `[low, high]`.
pub open spec fn narrowed(low: u32, high: u32, p: u32, bit: Bit) -> (u32, u32) {
    match bit {
        Bit::One => (low, middle(low, high, p) as u32),
        Bit::Zero => ((middle(low, high, p) + 1) as u32, high),
    }
}

/// True while the top bytes of `low` and `high` agree, so that a byte can
/// be shifted out.
pub open spec fn unsettled(low: u32, high: u32) -> bool {
    low <= high && top(low) == top(high)
}

/// The bytes the encoder emits while renormalizing `[low, high]`, and the
/// range it ends with.
pub open spec fn renormalized(low: u32, high: u32) -> (Seq<u8>, u32, u32)
    decreases 0x1_0000_0000 - (high - low),
{
    if unsettled(low, high) {
        let r = renormalized(shift_low(low), shift_high(high));
        (seq![top(low) as u8] + r.0, r.1, r.2)
    } else {
        (Seq::empty(), low, high)
    }
}

/// The byte the decoder reads at `pos`: past the end of the input it reads
/// `0xFF`.
pub open spec fn byte_at(input: Seq<u8>, pos: int) -> u8 {
    if 0 <= pos < input.len() {
        input[pos]
    } else {
        0xFF
    }
}

/// The decoder's window after shifting in `b`.
pub open spec fn shift_in(value: u32, b: u8) -> u32 {
    ((value as int % TOP as int) * 256 + b) as u32
}

/// The read position after one byte has been read at `pos`.
pub open spec fn advanced(input: Seq<u8>, pos: int) -> int {
    if pos < input.len() {
        pos + 1
    } else {
        pos
    }
}

/// The count of bytes read past the end after one more read at `pos`,
/// saturating at 255.
pub open spec fn padded(input: Seq<u8>, pos: int, pad: u8) -> u8 {
    if pos >= input.len() && pad < 255 {
        (pad + 1) as u8
    } else {
        pad
    }
}

/// The decoder's `(value, low, high, position, padding)` after
/// renormalizing.
pub open spec fn refilled(input: Seq<u8>, pos: int, pad: u8, value: u32, low: u32, high: u32) -> (
    u32,
    u32,
    u32,
    int,
    u8,
)
    decreases 0x1_0000_0000 - (high - low),
{
    if unsettled(low, high) {
        refilled(
            input,
            advanced(input, pos),
            padded(input, pos, pad),
            shift_in(value, byte_at(input, pos)),
            shift_low(low),
            shift_high(high),
        )
    } else {
        (value, low, high, pos, pad)
    }
}

/// The bit-level forms of shifting a byte out of the range.
proof fn lemma_shift(low: u32, high: u32)
    ensures
        ((high ^ low) < TOP) == (top(low) == top(high)),
        low << 8u32 == shift_low(low),
        (high << 8u32) | 0xFFu32 == shift_high(high),
        (low >> 24u32) as u8 == top(low) as u8,
        unsettled(low, high) ==> shift_high(high) - shift_low(low) == (high - low) * 256 + 255,
{
    assert(((high ^ low) < 0x0100_0000u32) == (high / 0x0100_0000u32 == low / 0x0100_0000u32))
        by (bit_vector);
    assert(low << 8u32 == ((low % 0x0100_0000u32) * 256u32) as u32) by (bit_vector);
    assert((high << 8u32) | 0xFFu32 == ((high % 0x0100_0000u32) * 256u32 + 255u32) as u32)
        by (bit_vector);
    assert((low >> 24u32) == low / 0x0100_0000u32) by (bit_vector);
}

/// The bit-level form of shifting a byte into the window.
proof fn lemma_shift_in(value: u32, b: u8)
    ensures
        (value << 8u32) | (b as u32) == shift_in(value, b),
{
    let bb = b as u32;
    assert(bb < 256u32 ==> (value << 8u32) | bb == ((value % 0x0100_0000u32) * 256u32 + bb) as u32)
        by (bit_vector);
}

/// At every split of a non-empty range, `low <= middle < high`, so both
/// bits leave a non-empty range.
pub proof fn lemma_split(low: u32, high: u32, p: u32)
    requires
        low < high,
    ensures
        low <= middle(low, high, p) < high,
{
    let d = high - low;
    assert(d * p / 0x1_0000_0000 < d) by (nonlinear_arith)
        requires
            d >= 1,
            0 <= p < 0x1_0000_0000,
    {
        assert(d * p < d * 0x1_0000_0000);
    }
    assert(d * p / 0x1_0000_0000 >= 0) by (nonlinear_arith)
        requires
            d >= 1,
            0 <= p,
    ;
}

/// The encoding half of the range coder. Bytes it emits are appended to its
/// output buffer.
pub struct BitEncoder {
    low: u32,
    high: u32,
    output: Vec<u8>,
}

impl BitEncoder {
    /// The lower end of the current range.
    pub closed spec fn low_spec(&self) -> u32 {
        self.low
    }

    /// The upper end of the current range.
    pub closed spec fn high_spec(&self) -> u32 {
        self.high
    }

    /// The bytes emitted and not yet taken.
    pub closed spec fn output_spec(&self) -> Seq<u8> {
        self.output@
    }

    /// Between two coded bits the range is non-empty and its ends differ in
    /// their top byte.
    pub open spec fn wf(&self) -> bool {
        self.low_spec() < self.high_spec() && top(self.low_spec()) != top(self.high_spec())
    }

    /// A fresh encoder over the whole range, with nothing emitted.
    pub fn new() -> (r: BitEncoder)
        ensures
            r.wf(),
            r.low_spec() == 0,
            r.high_spec() == 0xFFFF_FFFFu32,
            r.output_spec() == Seq::<u8>::empty(),
    {
        BitEncoder { low: 0, high: 0xFFFF_FFFF, output: Vec::new() }
    }

    /// The current lower end of the range.
    pub fn low(&self) -> (r: u32)
        ensures
            r == self.low_spec(),
    {
        self.low
    }

    /// The current upper end of the range.
    pub fn high(&self) -> (r: u32)
        ensures
            r == self.high_spec(),
    {
        self.high
    }

    /// Codes `bit` with probability `prediction / 2^32` of a one, then
    /// shifts out every settled byte.
    pub fn bit(&mut self, prediction: u32, bit: Bit)
        requires
            old(self).wf(),
        ensures
            final(self).wf(),
            ({
                let n = narrowed(old(self).low_spec(), old(self).high_spec(), prediction, bit);
                let r = renormalized(n.0, n.1);
                &&& final(self).output_spec() == old(self).output_spec() + r.0
                &&& final(self).low_spec() == r.1
                &&& final(self).high_spec() == r.2
            }),
    {
        proof {
            lemma_split(self.low, self.high, prediction);
        }
        let delta: u32 = (((self.high - self.low) as u64 * prediction as u64) / 0x1_0000_0000u64) as u32;
        let middle: u32 = self.low + delta;
        match bit {
            Bit::Zero => {
                self.low = middle + 1;
            },
            Bit::One => {
                self.high = middle;
            },
        }
        let ghost start = self.output@;
        let ghost n = (self.low, self.high);
        let ghost mut emitted: Seq<u8> = Seq::empty();
        while (self.high ^ self.low) < TOP
            invariant
                self.low <= self.high,
                self.output@ == start + emitted,
                renormalized(n.0, n.1) == ({
                    let r = renormalized(self.low, self.high);
                    (emitted + r.0, r.1, r.2)
                }),
            decreases 0x1_0000_0000 - (self.high - self.low),
        {
            proof {
                lemma_shift(self.low, self.high);
            }
            let ghost (l0, h0) = (self.low, self.high);
            let b: u8 = (self.low >> 24) as u8;
            self.output.push(b);
            self.low = self.low << 8;
            self.high = (self.high << 8) | 0xFF;
            proof {
                let r = renormalized(self.low, self.high);
                assert(renormalized(l0, h0) == (seq![b] + r.0, r.1, r.2));
                assert(emitted + (seq![b] + r.0) =~= emitted.push(b) + r.0);
                emitted = emitted.push(b);
                assert(self.output@ =~= start + emitted);
            }
        }
        proof {
            lemma_shift(self.low, self.high);
        }
    }
}


impl BitEncoder {
    /// Hands out the bytes emitted so far and keeps coding from the same
    /// range.
    pub fn take_output(&mut self) -> (r: Vec<u8>)
        ensures
            r@ == old(self).output_spec(),
            final(self).output_spec() == Seq::<u8>::empty(),
            final(self).low_spec() == old(self).low_spec(),
            final(self).high_spec() == old(self).high_spec(),
    {
        self.output.split_off(0)
    }

    /// Ends the stream: emits the top byte of `low` and returns every byte
    /// not yet taken.
    pub fn close(self) -> (r: Vec<u8>)
        ensures
            r@ == self.output_spec().push(top(self.low_spec()) as u8),
    {
        proof {
            lemma_shift(self.low, self.high);
        }
        let mut output = self.output;
        output.push((self.low >> 24) as u8);
        output
    }
}

/// The decoding half of the range coder, reading from an input buffer.
/// Past the end of the input it reads `0xFF` bytes.
pub struct BitDecoder {
    value: u32,
    low: u32,
    high: u32,
    input: Vec<u8>,
    position: usize,
    padding: u8,
}

impl BitDecoder {
    /// The 32-bit window of input bits.
    pub closed spec fn value_spec(&self) -> u32 {
        self.value
    }

    /// The lower end of the current range.
    pub closed spec fn low_spec(&self) -> u32 {
        self.low
    }

    /// The upper end of the current range.
    pub closed spec fn high_spec(&self) -> u32 {
        self.high
    }

    /// The coded bytes.
    pub closed spec fn input_spec(&self) -> Seq<u8> {
        self.input@
    }

    /// How many coded bytes have been read, at most the input's length.
    pub closed spec fn position_spec(&self) -> int {
        self.position as int
    }

    /// How many `0xFF` bytes have been read past the end, up to 255.
    pub closed spec fn padding_spec(&self) -> u8 {
        self.padding
    }

    /// The window lies in the range, which is never inverted, and the read
    /// position stays within the input.
    pub open spec fn wf(&self) -> bool {
        &&& self.low_spec() <= self.value_spec() <= self.high_spec()
        &&& 0 <= self.position_spec() <= self.input_spec().len()
    }

    /// A decoder over `input` with an empty range: the first bit loads four
    /// bytes.
    pub fn new(input: Vec<u8>) -> (r: BitDecoder)
        ensures
            r.wf(),
            r.input_spec() == input@,
            r.position_spec() == 0,
            r.value_spec() == 0,
            r.low_spec() == 0,
            r.high_spec() == 0,
            r.padding_spec() == 0,
    {
        BitDecoder { value: 0, low: 0, high: 0, input, position: 0, padding: 0 }
    }

    /// Reads the next coded byte, or `0xFF` past the end.
    fn next_byte(&mut self) -> (r: u8)
        requires
            old(self).wf(),
        ensures
            r == byte_at(old(self).input_spec(), old(self).position_spec()),
            final(self).position_spec() == advanced(
                old(self).input_spec(),
                old(self).position_spec(),
            ),
            final(self).padding_spec() == padded(
                old(self).input_spec(),
                old(self).position_spec(),
                old(self).padding_spec(),
            ),
            final(self).input_spec() == old(self).input_spec(),
            final(self).value_spec() == old(self).value_spec(),
            final(self).low_spec() == old(self).low_spec(),
            final(self).high_spec() == old(self).high_spec(),
    {
        if self.position < self.input.len() {
            let b = self.input[self.position];
            self.position = self.position + 1;
            b
        } else {
            if self.padding < 255 {
                self.padding = self.padding + 1;
            }
            0xFF
        }
    }

    /// Whether more than four bytes have been read past the end of the
    /// input. A complete stream ends before its decoder reads a fourth one.
    pub fn exhausted(&self) -> (r: bool)
        ensures
            r == (self.padding_spec() > 4),
    {
        self.padding > 4
    }

    /// Shifts in bytes while the top bytes of `low` and `high` agree.
    fn flush(&mut self)
        requires
            old(self).wf(),
        ensures
            final(self).wf(),
            final(self).low_spec() < final(self).high_spec(),
            final(self).input_spec() == old(self).input_spec(),
            (final(self).value_spec(), final(self).low_spec(), final(self).high_spec(),
            final(self).position_spec(), final(self).padding_spec()) == refilled(
                old(self).input_spec(),
                old(self).position_spec(),
                old(self).padding_spec(),
                old(self).value_spec(),
                old(self).low_spec(),
                old(self).high_spec(),
            ),
    {
        let ghost start = (self.value, self.low, self.high, self.position as int, self.padding);
        let ghost input = self.input@;
        while (self.high ^ self.low) < TOP
            invariant
                self.wf(),
                self.input@ == input,
                refilled(input, start.3, start.4, start.0, start.1, start.2) == refilled(
                    input,
                    self.position as int,
                    self.padding,
                    self.value,
                    self.low,
                    self.high,
                ),
            decreases 0x1_0000_0000 - (self.high - self.low),
        {
            proof {
                lemma_shift(self.low, self.high);
            }
            let b = self.next_byte();
            proof {
                lemma_shift_in(self.value, b);
            }
            self.value = (self.value << 8) | (b as u32);
            self.low = self.low << 8;
            self.high = (self.high << 8) | 0xFF;
        }
        proof {
            lemma_shift(self.low, self.high);
        }
    }

    /// Decodes one bit coded with probability `prediction / 2^32` of a one.
    pub fn bit(&mut self, prediction: u32) -> (r: Bit)
        requires
            old(self).wf(),
        ensures
            final(self).wf(),
            final(self).input_spec() == old(self).input_spec(),
            ({
                let f = refilled(
                    old(self).input_spec(),
                    old(self).position_spec(),
                    old(self).padding_spec(),
                    old(self).value_spec(),
                    old(self).low_spec(),
                    old(self).high_spec(),
                );
                &&& r == (if f.0 <= middle(f.1, f.2, prediction) { Bit::One } else { Bit::Zero })
                &&& (final(self).low_spec(), final(self).high_spec()) == narrowed(f.1, f.2, prediction, r)
                &&& final(self).value_spec() == f.0
                &&& final(self).position_spec() == f.3
                &&& final(self).padding_spec() == f.4
            }),
    {
        self.flush();
        proof {
            lemma_split(self.low, self.high, prediction);
        }
        let delta: u32 = (((self.high - self.low) as u64 * prediction as u64) / 0x1_0000_0000u64) as u32;
        let middle: u32 = self.low + delta;
        if self.value <= middle {
            self.high = middle;
            Bit::One
        } else {
            self.low = middle + 1;
            Bit::Zero
        }
    }
}

} // verus!
