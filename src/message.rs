//! The 32-bit messages that carry coding work from the primary model to the
//! secondary model and the range coder.
use crate::bit::Bit;
use crate::byte::Byte;
use vstd::prelude::*;

verus! {

/// A unit of coding work: one bit under a context, or one literal byte
/// under the 256-slot subtable that starts at a context.
#[derive(Copy, Clone, PartialEq, Eq, Structural, Debug)]
pub enum Message {
    Bit(usize, Bit),
    Byte(usize, Byte),
}

/// A message packed in 32 bits. A bit message has the top bit clear, the
/// bit value in bit 30 and the context in bits 0 to 29; a byte message has
/// the top bit set, the context in bits 8 to 30 and the byte in bits 0 to 7.
#[derive(Copy, Clone, PartialEq, Eq, Structural, Debug)]
pub struct PackedMessage(pub u32);

impl PackedMessage {
    /// The message this word carries.
    pub open spec fn message(self) -> Message {
        if self.0 < 0x8000_0000 {
            Message::Bit(
                (self.0 as int % 0x4000_0000) as usize,
                if self.0 >= 0x4000_0000 {
                    Bit::One
                } else {
                    Bit::Zero
                },
            )
        } else {
            Message::Byte(
                ((self.0 as int % 0x8000_0000) / 256 * 256) as usize,
                Byte((self.0 as int % 256) as u8),
            )
        }
    }

    /// The message for `bit` under `context`.
    pub fn bit(context: usize, bit: Bit) -> (r: PackedMessage)
        requires
            context < 0x4000_0000,
        ensures
            r.message() == Message::Bit(context, bit),
    {
        let c = context as u32;
        let b = bit.to_u32();
        proof {
            assert(b <= 1 && c < 0x4000_0000u32 ==> {
                let w = (b << 30u32) | c;
                &&& w < 0x8000_0000u32
                &&& w % 0x4000_0000u32 == c
                &&& (w >= 0x4000_0000u32) == (b == 1u32)
            }) by (bit_vector);
        }
        PackedMessage((b << 30) | c)
    }

    /// The message for literal `byte` under the subtable at `context`.
    pub fn byte(context: usize, byte: Byte) -> (r: PackedMessage)
        requires
            context < 0x8000_0000,
            context % 256 == 0,
        ensures
            r.message() == Message::Byte(context, byte),
    {
        let c = context as u32;
        let v = byte.0 as u32;
        proof {
            assert(v < 256u32 && c < 0x8000_0000u32 && c % 256u32 == 0u32 ==> {
                let w = 0x8000_0000u32 | c | v;
                &&& w >= 0x8000_0000u32
                &&& (w % 0x8000_0000u32) / 256u32 * 256u32 == c
                &&& w % 256u32 == v
            }) by (bit_vector);
        }
        PackedMessage(0x8000_0000 | c | v)
    }

    /// Unpacks the message.
    pub fn get(&self) -> (r: Message)
        ensures
            r == self.message(),
    {
        let w = self.0;
        if w < 0x8000_0000 {
            proof {
                assert(w & 0x3FFF_FFFFu32 == w % 0x4000_0000u32) by (bit_vector);
                assert(w < 0x8000_0000u32 ==> ((w >> 30u32 == 1u32) == (w >= 0x4000_0000u32)))
                    by (bit_vector);
            }
            let bit = if (w >> 30) == 1 {
                Bit::One
            } else {
                Bit::Zero
            };
            Message::Bit((w & 0x3FFF_FFFF) as usize, bit)
        } else {
            proof {
                assert(w & 0x7FFF_FF00u32 == (w % 0x8000_0000u32) / 256u32 * 256u32) by (bit_vector);
                assert(w & 0xFFu32 == w % 256u32) by (bit_vector);
            }
            Message::Byte((w & 0x7FFF_FF00) as usize, Byte((w & 0xFF) as u8))
        }
    }
}

} // verus!
