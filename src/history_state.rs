//! One slot of the primary model: the three most recently matched bytes of
//! a context and the index of its match-statistics state.
use crate::byte::Byte;
use vstd::prelude::*;

verus! {

/// How the next byte relates to the three bytes a slot remembers.
#[derive(Copy, Clone, PartialEq, Eq, Structural, Debug, Hash)]
pub enum ByteMatched {
    /// The byte equals the first remembered byte.
    First,
    /// The byte equals the second remembered byte (and not the first).
    Second,
    /// The byte equals the third remembered byte (and neither other one).
    Third,
    /// The byte equals none of them: it is sent as a literal.
    Miss,
}

/// The outcome of a byte `x` against the remembered bytes `(f, s, t)`.
pub open spec fn outcome(f: u8, s: u8, t: u8, x: u8) -> ByteMatched {
    if x == f {
        ByteMatched::First
    } else if x == s {
        ByteMatched::Second
    } else if x == t {
        ByteMatched::Third
    } else {
        ByteMatched::Miss
    }
}

/// The remembered bytes after `x` was seen with outcome `m`.
pub open spec fn ranked(f: u8, s: u8, t: u8, x: u8, m: ByteMatched) -> (u8, u8, u8) {
    match m {
        ByteMatched::First => (f, s, t),
        ByteMatched::Second => (x, f, t),
        ByteMatched::Third => (x, f, s),
        ByteMatched::Miss => (x, f, s),
    }
}

/// One entry of the primary state table: the first-byte match count that
/// the secondary model sees, and a successor index for each outcome.
#[derive(Copy, Clone, PartialEq, Eq, Structural, Debug)]
pub struct HistoryState {
    first_count: u8,
    next_if_first: u8,
    next_if_second: u8,
    next_if_third: u8,
    next_if_miss: u8,
}

impl HistoryState {
    /// The successor index after outcome `m`.
    pub open spec fn next_spec(self, m: ByteMatched) -> int {
        match m {
            ByteMatched::First => self.next_if_first_spec() as int,
            ByteMatched::Second => self.next_if_second_spec() as int,
            ByteMatched::Third => self.next_if_third_spec() as int,
            ByteMatched::Miss => self.next_if_miss_spec() as int,
        }
    }

    /// The match count of this state.
    pub closed spec fn first_count_spec(self) -> u8 {
        self.first_count
    }

    /// The successor after a first-byte match.
    pub closed spec fn next_if_first_spec(self) -> u8 {
        self.next_if_first
    }

    /// The successor after a second-byte match.
    pub closed spec fn next_if_second_spec(self) -> u8 {
        self.next_if_second
    }

    /// The successor after a third-byte match.
    pub closed spec fn next_if_third_spec(self) -> u8 {
        self.next_if_third
    }

    /// The successor after a miss.
    pub closed spec fn next_if_miss_spec(self) -> u8 {
        self.next_if_miss
    }

    /// The state with the given match count and successors.
    pub closed spec fn spec_new(
        first_count: u8,
        next_if_first: u8,
        next_if_second: u8,
        next_if_third: u8,
        next_if_miss: u8,
    ) -> HistoryState {
        HistoryState { first_count, next_if_first, next_if_second, next_if_third, next_if_miss }
    }

    /// A state with the given match count and successors.
    pub fn new(
        first_count: u8,
        next_if_first: u8,
        next_if_second: u8,
        next_if_third: u8,
        next_if_miss: u8,
    ) -> (r: HistoryState)
        ensures
            r == HistoryState::spec_new(
                first_count,
                next_if_first,
                next_if_second,
                next_if_third,
                next_if_miss,
            ),
            r.first_count_spec() == first_count,
            r.next_if_first_spec() == next_if_first,
            r.next_if_second_spec() == next_if_second,
            r.next_if_third_spec() == next_if_third,
            r.next_if_miss_spec() == next_if_miss,
    {
        HistoryState { first_count, next_if_first, next_if_second, next_if_third, next_if_miss }
    }

    /// The successor index after outcome `matched`.
    pub fn next(&self, matched: ByteMatched) -> (r: usize)
        ensures
            r == self.next_spec(matched),
            r < 256,
    {
        match matched {
            ByteMatched::First => self.next_if_first as usize,
            ByteMatched::Second => self.next_if_second as usize,
            ByteMatched::Third => self.next_if_third as usize,
            ByteMatched::Miss => self.next_if_miss as usize,
        }
    }

    /// The match count that selects the secondary context.
    pub fn match_count(&self) -> (r: usize)
        ensures
            r == self.first_count_spec(),
    {
        self.first_count as usize
    }
}

/// The entries of the primary state table.
pub open spec fn history_states() -> Seq<HistoryState> {
    seq![
        HistoryState::spec_new(0, 27, 0, 0, 0),
        HistoryState::spec_new(0, 28, 1, 27, 0),
        HistoryState::spec_new(0, 28, 1, 54, 0),
        HistoryState::spec_new(0, 29, 2, 74, 0),
        HistoryState::spec_new(0, 31, 27, 1, 1),
        HistoryState::spec_new(0, 32, 28, 28, 1),
        HistoryState::spec_new(0, 32, 28, 55, 1),
        HistoryState::spec_new(0, 33, 29, 75, 1),
        HistoryState::spec_new(0, 31, 54, 1, 1),
        HistoryState::spec_new(0, 32, 55, 28, 1),
        HistoryState::spec_new(0, 32, 55, 55, 1),
        HistoryState::spec_new(0, 33, 56, 75, 1),
        HistoryState::spec_new(0, 35, 74, 2, 2),
        HistoryState::spec_new(0, 36, 75, 29, 2),
        HistoryState::spec_new(0, 36, 75, 56, 2),
        HistoryState::spec_new(0, 37, 76, 76, 2),
        HistoryState::spec_new(0, 39, 90, 3, 3),
        HistoryState::spec_new(0, 40, 91, 30, 3),
        HistoryState::spec_new(0, 40, 91, 57, 3),
        HistoryState::spec_new(0, 41, 92, 77, 3),
        HistoryState::spec_new(0, 43, 102, 3, 3),
        HistoryState::spec_new(0, 44, 103, 30, 3),
        HistoryState::spec_new(0, 44, 103, 57, 3),
        HistoryState::spec_new(0, 47, 110, 3, 3),
        HistoryState::spec_new(0, 48, 111, 30, 3),
        HistoryState::spec_new(0, 50, 116, 3, 3),
        HistoryState::spec_new(0, 51, 117, 30, 3),
        HistoryState::spec_new(1, 54, 4, 4, 4),
        HistoryState::spec_new(1, 55, 5, 31, 4),
        HistoryState::spec_new(1, 55, 5, 58, 4),
        HistoryState::spec_new(1, 56, 6, 78, 4),
        HistoryState::spec_new(1, 58, 31, 5, 5),
        HistoryState::spec_new(1, 59, 32, 32, 5),
        HistoryState::spec_new(1, 59, 32, 59, 5),
        HistoryState::spec_new(1, 60, 33, 79, 5),
        HistoryState::spec_new(1, 58, 58, 5, 5),
        HistoryState::spec_new(1, 59, 59, 32, 5),
        HistoryState::spec_new(1, 59, 59, 59, 5),
        HistoryState::spec_new(1, 60, 60, 79, 5),
        HistoryState::spec_new(1, 62, 78, 6, 6),
        HistoryState::spec_new(1, 63, 79, 33, 6),
        HistoryState::spec_new(1, 63, 79, 60, 6),
        HistoryState::spec_new(1, 64, 80, 80, 6),
        HistoryState::spec_new(1, 65, 93, 7, 7),
        HistoryState::spec_new(1, 66, 94, 34, 7),
        HistoryState::spec_new(1, 66, 94, 61, 7),
        HistoryState::spec_new(1, 67, 95, 81, 7),
        HistoryState::spec_new(1, 68, 104, 7, 7),
        HistoryState::spec_new(1, 69, 105, 34, 7),
        HistoryState::spec_new(1, 69, 105, 61, 7),
        HistoryState::spec_new(1, 70, 112, 7, 7),
        HistoryState::spec_new(1, 71, 113, 34, 7),
        HistoryState::spec_new(1, 72, 118, 7, 7),
        HistoryState::spec_new(1, 73, 119, 34, 7),
        HistoryState::spec_new(2, 74, 8, 8, 8),
        HistoryState::spec_new(2, 75, 9, 35, 8),
        HistoryState::spec_new(2, 75, 9, 62, 8),
        HistoryState::spec_new(2, 76, 10, 82, 8),
        HistoryState::spec_new(2, 78, 35, 9, 9),
        HistoryState::spec_new(2, 79, 36, 36, 9),
        HistoryState::spec_new(2, 79, 36, 63, 9),
        HistoryState::spec_new(2, 80, 37, 83, 9),
        HistoryState::spec_new(2, 78, 62, 9, 9),
        HistoryState::spec_new(2, 79, 63, 36, 9),
        HistoryState::spec_new(2, 79, 63, 63, 9),
        HistoryState::spec_new(2, 82, 82, 10, 10),
        HistoryState::spec_new(2, 83, 83, 37, 10),
        HistoryState::spec_new(2, 83, 83, 64, 10),
        HistoryState::spec_new(2, 84, 96, 11, 11),
        HistoryState::spec_new(2, 85, 97, 38, 11),
        HistoryState::spec_new(2, 86, 106, 11, 11),
        HistoryState::spec_new(2, 87, 107, 38, 11),
        HistoryState::spec_new(2, 88, 114, 11, 11),
        HistoryState::spec_new(2, 89, 115, 38, 11),
        HistoryState::spec_new(3, 90, 12, 12, 12),
        HistoryState::spec_new(3, 91, 13, 39, 12),
        HistoryState::spec_new(3, 91, 13, 65, 12),
        HistoryState::spec_new(3, 92, 14, 84, 12),
        HistoryState::spec_new(3, 93, 39, 13, 13),
        HistoryState::spec_new(3, 94, 40, 40, 13),
        HistoryState::spec_new(3, 94, 40, 66, 13),
        HistoryState::spec_new(3, 95, 41, 85, 13),
        HistoryState::spec_new(3, 93, 65, 13, 13),
        HistoryState::spec_new(3, 94, 66, 40, 13),
        HistoryState::spec_new(3, 96, 84, 14, 14),
        HistoryState::spec_new(3, 97, 85, 41, 14),
        HistoryState::spec_new(3, 98, 98, 15, 15),
        HistoryState::spec_new(3, 99, 99, 42, 15),
        HistoryState::spec_new(3, 100, 108, 15, 15),
        HistoryState::spec_new(3, 101, 109, 42, 15),
        HistoryState::spec_new(4, 102, 16, 16, 16),
        HistoryState::spec_new(4, 103, 17, 43, 16),
        HistoryState::spec_new(4, 103, 17, 68, 16),
        HistoryState::spec_new(4, 104, 43, 17, 17),
        HistoryState::spec_new(4, 105, 44, 44, 17),
        HistoryState::spec_new(4, 105, 44, 69, 17),
        HistoryState::spec_new(4, 104, 68, 17, 17),
        HistoryState::spec_new(4, 105, 69, 44, 17),
        HistoryState::spec_new(4, 106, 86, 18, 18),
        HistoryState::spec_new(4, 107, 87, 45, 18),
        HistoryState::spec_new(4, 108, 100, 19, 19),
        HistoryState::spec_new(4, 109, 101, 46, 19),
        HistoryState::spec_new(5, 110, 20, 20, 20),
        HistoryState::spec_new(5, 111, 21, 47, 20),
        HistoryState::spec_new(5, 112, 47, 21, 21),
        HistoryState::spec_new(5, 113, 48, 48, 21),
        HistoryState::spec_new(5, 112, 70, 21, 21),
        HistoryState::spec_new(5, 113, 71, 48, 21),
        HistoryState::spec_new(5, 114, 88, 22, 22),
        HistoryState::spec_new(5, 115, 89, 49, 22),
        HistoryState::spec_new(6, 116, 23, 23, 23),
        HistoryState::spec_new(6, 117, 24, 50, 23),
        HistoryState::spec_new(6, 118, 50, 24, 24),
        HistoryState::spec_new(6, 119, 51, 51, 24),
        HistoryState::spec_new(6, 118, 72, 24, 24),
        HistoryState::spec_new(6, 119, 73, 51, 24),
        HistoryState::spec_new(7, 120, 25, 25, 25),
        HistoryState::spec_new(7, 121, 26, 52, 25),
        HistoryState::spec_new(7, 122, 52, 26, 26),
        HistoryState::spec_new(7, 123, 53, 53, 26),
        HistoryState::spec_new(8, 124, 25, 25, 25),
        HistoryState::spec_new(8, 125, 26, 52, 25),
        HistoryState::spec_new(8, 126, 52, 26, 26),
        HistoryState::spec_new(8, 127, 53, 53, 26),
        HistoryState::spec_new(9, 128, 25, 25, 25),
        HistoryState::spec_new(9, 129, 26, 52, 25),
        HistoryState::spec_new(9, 130, 52, 26, 26),
        HistoryState::spec_new(9, 131, 53, 53, 26),
        HistoryState::spec_new(10, 132, 25, 25, 25),
        HistoryState::spec_new(10, 133, 26, 52, 25),
        HistoryState::spec_new(10, 134, 52, 26, 26),
        HistoryState::spec_new(10, 135, 53, 53, 26),
        HistoryState::spec_new(11, 136, 25, 25, 25),
        HistoryState::spec_new(11, 137, 26, 52, 25),
        HistoryState::spec_new(11, 138, 52, 26, 26),
        HistoryState::spec_new(11, 139, 53, 53, 26),
        HistoryState::spec_new(12, 140, 25, 25, 25),
        HistoryState::spec_new(12, 141, 26, 52, 25),
        HistoryState::spec_new(12, 142, 52, 26, 26),
        HistoryState::spec_new(12, 143, 53, 53, 26),
        HistoryState::spec_new(13, 144, 25, 25, 25),
        HistoryState::spec_new(13, 145, 26, 52, 25),
        HistoryState::spec_new(13, 146, 52, 26, 26),
        HistoryState::spec_new(13, 147, 53, 53, 26),
        HistoryState::spec_new(14, 148, 25, 25, 25),
        HistoryState::spec_new(14, 149, 26, 52, 25),
        HistoryState::spec_new(14, 150, 52, 26, 26),
        HistoryState::spec_new(14, 151, 53, 53, 26),
        HistoryState::spec_new(15, 152, 25, 25, 25),
        HistoryState::spec_new(15, 153, 26, 52, 25),
        HistoryState::spec_new(15, 154, 52, 26, 26),
        HistoryState::spec_new(15, 155, 53, 53, 26),
        HistoryState::spec_new(16, 156, 25, 25, 25),
        HistoryState::spec_new(16, 157, 26, 52, 25),
        HistoryState::spec_new(16, 158, 52, 26, 26),
        HistoryState::spec_new(16, 159, 53, 53, 26),
        HistoryState::spec_new(17, 160, 25, 25, 25),
        HistoryState::spec_new(17, 161, 26, 52, 25),
        HistoryState::spec_new(17, 162, 52, 26, 26),
        HistoryState::spec_new(17, 163, 53, 53, 26),
        HistoryState::spec_new(18, 164, 25, 25, 25),
        HistoryState::spec_new(18, 165, 26, 52, 25),
        HistoryState::spec_new(18, 166, 52, 26, 26),
        HistoryState::spec_new(18, 167, 53, 53, 26),
        HistoryState::spec_new(19, 168, 25, 25, 25),
        HistoryState::spec_new(19, 169, 26, 52, 25),
        HistoryState::spec_new(19, 170, 52, 26, 26),
        HistoryState::spec_new(19, 171, 53, 53, 26),
        HistoryState::spec_new(20, 172, 25, 25, 25),
        HistoryState::spec_new(20, 173, 26, 52, 25),
        HistoryState::spec_new(20, 174, 52, 26, 26),
        HistoryState::spec_new(20, 175, 53, 53, 26),
        HistoryState::spec_new(21, 176, 25, 25, 25),
        HistoryState::spec_new(21, 177, 26, 52, 25),
        HistoryState::spec_new(21, 178, 52, 26, 26),
        HistoryState::spec_new(21, 179, 53, 53, 26),
        HistoryState::spec_new(22, 180, 25, 25, 25),
        HistoryState::spec_new(22, 181, 26, 52, 25),
        HistoryState::spec_new(22, 182, 52, 26, 26),
        HistoryState::spec_new(22, 183, 53, 53, 26),
        HistoryState::spec_new(23, 184, 25, 25, 25),
        HistoryState::spec_new(23, 185, 26, 52, 25),
        HistoryState::spec_new(23, 186, 52, 26, 26),
        HistoryState::spec_new(23, 187, 53, 53, 26),
        HistoryState::spec_new(24, 188, 25, 25, 25),
        HistoryState::spec_new(24, 189, 26, 52, 25),
        HistoryState::spec_new(24, 190, 52, 26, 26),
        HistoryState::spec_new(24, 191, 53, 53, 26),
        HistoryState::spec_new(25, 192, 25, 25, 25),
        HistoryState::spec_new(25, 193, 26, 52, 25),
        HistoryState::spec_new(25, 194, 52, 26, 26),
        HistoryState::spec_new(25, 195, 53, 53, 26),
        HistoryState::spec_new(26, 196, 25, 25, 25),
        HistoryState::spec_new(26, 197, 26, 52, 25),
        HistoryState::spec_new(26, 198, 52, 26, 26),
        HistoryState::spec_new(26, 199, 53, 53, 26),
        HistoryState::spec_new(27, 200, 25, 25, 25),
        HistoryState::spec_new(27, 201, 26, 52, 25),
        HistoryState::spec_new(27, 202, 52, 26, 26),
        HistoryState::spec_new(27, 203, 53, 53, 26),
        HistoryState::spec_new(28, 204, 25, 25, 25),
        HistoryState::spec_new(28, 205, 26, 52, 25),
        HistoryState::spec_new(28, 206, 52, 26, 26),
        HistoryState::spec_new(28, 207, 53, 53, 26),
        HistoryState::spec_new(29, 208, 25, 25, 25),
        HistoryState::spec_new(29, 209, 26, 52, 25),
        HistoryState::spec_new(29, 210, 52, 26, 26),
        HistoryState::spec_new(29, 211, 53, 53, 26),
        HistoryState::spec_new(30, 212, 25, 25, 25),
        HistoryState::spec_new(30, 213, 26, 52, 25),
        HistoryState::spec_new(30, 214, 52, 26, 26),
        HistoryState::spec_new(30, 215, 53, 53, 26),
        HistoryState::spec_new(31, 216, 25, 25, 25),
        HistoryState::spec_new(31, 217, 26, 52, 25),
        HistoryState::spec_new(31, 218, 52, 26, 26),
        HistoryState::spec_new(31, 219, 53, 53, 26),
        HistoryState::spec_new(32, 220, 25, 25, 25),
        HistoryState::spec_new(32, 220, 26, 52, 25),
        HistoryState::spec_new(32, 220, 52, 26, 26),
        HistoryState::spec_new(32, 220, 53, 53, 26),
        HistoryState::spec_new(33, 221, 53, 53, 26),
        HistoryState::spec_new(34, 222, 53, 53, 26),
        HistoryState::spec_new(35, 223, 53, 53, 26),
        HistoryState::spec_new(36, 224, 53, 53, 26),
        HistoryState::spec_new(37, 225, 53, 53, 26),
        HistoryState::spec_new(38, 226, 53, 53, 26),
        HistoryState::spec_new(39, 227, 53, 53, 26),
        HistoryState::spec_new(40, 228, 53, 53, 26),
        HistoryState::spec_new(41, 229, 53, 53, 26),
        HistoryState::spec_new(42, 230, 53, 53, 26),
        HistoryState::spec_new(43, 231, 53, 53, 26),
        HistoryState::spec_new(44, 232, 53, 53, 26),
        HistoryState::spec_new(45, 233, 53, 53, 26),
        HistoryState::spec_new(46, 234, 53, 53, 26),
        HistoryState::spec_new(47, 235, 53, 53, 26),
        HistoryState::spec_new(48, 236, 53, 53, 26),
        HistoryState::spec_new(49, 237, 53, 53, 26),
        HistoryState::spec_new(50, 238, 53, 53, 26),
        HistoryState::spec_new(51, 239, 53, 53, 26),
        HistoryState::spec_new(52, 240, 53, 53, 26),
        HistoryState::spec_new(53, 241, 53, 53, 26),
        HistoryState::spec_new(54, 242, 53, 53, 26),
        HistoryState::spec_new(55, 243, 53, 53, 26),
        HistoryState::spec_new(56, 244, 53, 53, 26),
        HistoryState::spec_new(57, 245, 53, 53, 26),
        HistoryState::spec_new(58, 246, 53, 53, 26),
        HistoryState::spec_new(59, 247, 53, 53, 26),
        HistoryState::spec_new(60, 248, 53, 53, 26),
        HistoryState::spec_new(61, 249, 53, 53, 26),
        HistoryState::spec_new(62, 250, 53, 53, 26),
        HistoryState::spec_new(63, 251, 53, 53, 26),
        HistoryState::spec_new(64, 252, 53, 53, 26),
        HistoryState::spec_new(65, 253, 53, 53, 26),
        HistoryState::spec_new(66, 254, 53, 53, 26),
        HistoryState::spec_new(67, 254, 53, 53, 26),
        HistoryState::spec_new(0, 0, 0, 0, 0),
    ]
}

/// `v` clamped to `max`.
pub open spec fn clamp(v: int, max: int) -> int {
    if v >= max {
        max
    } else {
        v
    }
}

/// One less, but not below 1 (0 stays 0), clamped to `max`.
pub open spec fn dec_nz(v: int, max: int) -> int {
    clamp(if v > 1 { v - 1 } else { v }, max)
}

/// The `(first, second, third)` ranks after outcome `m`, by the rank rules
/// with bounds 67, 7 and 3.
pub open spec fn ranks_after(r: (int, int, int), m: ByteMatched) -> (int, int, int) {
    match m {
        ByteMatched::First => if r.0 <= 31 {
            (clamp(r.0 + 1, 67), dec_nz(r.1, 7), dec_nz(r.2, 3))
        } else {
            (clamp(r.0 + 1, 67), 1, 1)
        },
        ByteMatched::Second => (clamp(r.1, 67), clamp(r.0, 7), dec_nz(r.2, 3)),
        ByteMatched::Third => (clamp(r.2, 67), clamp(r.0, 7), dec_nz(r.1, 3)),
        ByteMatched::Miss => (0, clamp(r.0, 7), dec_nz(r.1, 3)),
    }
}

/// `a` comes before `b` in `(first, second, third)` order.
pub open spec fn ranks_before(a: (int, int, int), b: (int, int, int)) -> bool {
    a.0 < b.0 || (a.0 == b.0 && (a.1 < b.1 || (a.1 == b.1 && a.2 < b.2)))
}

/// The rank triples of the states of the primary table, in order.
pub open spec fn history_ranks() -> Seq<(int, int, int)> {
    seq![
        (0, 0, 0),
        (0, 0, 1),
        (0, 0, 2),
        (0, 0, 3),
        (0, 1, 0),
        (0, 1, 1),
        (0, 1, 2),
        (0, 1, 3),
        (0, 2, 0),
        (0, 2, 1),
        (0, 2, 2),
        (0, 2, 3),
        (0, 3, 0),
        (0, 3, 1),
        (0, 3, 2),
        (0, 3, 3),
        (0, 4, 0),
        (0, 4, 1),
        (0, 4, 2),
        (0, 4, 3),
        (0, 5, 0),
        (0, 5, 1),
        (0, 5, 2),
        (0, 6, 0),
        (0, 6, 1),
        (0, 7, 0),
        (0, 7, 1),
        (1, 0, 0),
        (1, 0, 1),
        (1, 0, 2),
        (1, 0, 3),
        (1, 1, 0),
        (1, 1, 1),
        (1, 1, 2),
        (1, 1, 3),
        (1, 2, 0),
        (1, 2, 1),
        (1, 2, 2),
        (1, 2, 3),
        (1, 3, 0),
        (1, 3, 1),
        (1, 3, 2),
        (1, 3, 3),
        (1, 4, 0),
        (1, 4, 1),
        (1, 4, 2),
        (1, 4, 3),
        (1, 5, 0),
        (1, 5, 1),
        (1, 5, 2),
        (1, 6, 0),
        (1, 6, 1),
        (1, 7, 0),
        (1, 7, 1),
        (2, 0, 0),
        (2, 0, 1),
        (2, 0, 2),
        (2, 0, 3),
        (2, 1, 0),
        (2, 1, 1),
        (2, 1, 2),
        (2, 1, 3),
        (2, 2, 0),
        (2, 2, 1),
        (2, 2, 2),
        (2, 3, 0),
        (2, 3, 1),
        (2, 3, 2),
        (2, 4, 0),
        (2, 4, 1),
        (2, 5, 0),
        (2, 5, 1),
        (2, 6, 0),
        (2, 6, 1),
        (3, 0, 0),
        (3, 0, 1),
        (3, 0, 2),
        (3, 0, 3),
        (3, 1, 0),
        (3, 1, 1),
        (3, 1, 2),
        (3, 1, 3),
        (3, 2, 0),
        (3, 2, 1),
        (3, 3, 0),
        (3, 3, 1),
        (3, 4, 0),
        (3, 4, 1),
        (3, 5, 0),
        (3, 5, 1),
        (4, 0, 0),
        (4, 0, 1),
        (4, 0, 2),
        (4, 1, 0),
        (4, 1, 1),
        (4, 1, 2),
        (4, 2, 0),
        (4, 2, 1),
        (4, 3, 0),
        (4, 3, 1),
        (4, 4, 0),
        (4, 4, 1),
        (5, 0, 0),
        (5, 0, 1),
        (5, 1, 0),
        (5, 1, 1),
        (5, 2, 0),
        (5, 2, 1),
        (5, 3, 0),
        (5, 3, 1),
        (6, 0, 0),
        (6, 0, 1),
        (6, 1, 0),
        (6, 1, 1),
        (6, 2, 0),
        (6, 2, 1),
        (7, 0, 0),
        (7, 0, 1),
        (7, 1, 0),
        (7, 1, 1),
        (8, 0, 0),
        (8, 0, 1),
        (8, 1, 0),
        (8, 1, 1),
        (9, 0, 0),
        (9, 0, 1),
        (9, 1, 0),
        (9, 1, 1),
        (10, 0, 0),
        (10, 0, 1),
        (10, 1, 0),
        (10, 1, 1),
        (11, 0, 0),
        (11, 0, 1),
        (11, 1, 0),
        (11, 1, 1),
        (12, 0, 0),
        (12, 0, 1),
        (12, 1, 0),
        (12, 1, 1),
        (13, 0, 0),
        (13, 0, 1),
        (13, 1, 0),
        (13, 1, 1),
        (14, 0, 0),
        (14, 0, 1),
        (14, 1, 0),
        (14, 1, 1),
        (15, 0, 0),
        (15, 0, 1),
        (15, 1, 0),
        (15, 1, 1),
        (16, 0, 0),
        (16, 0, 1),
        (16, 1, 0),
        (16, 1, 1),
        (17, 0, 0),
        (17, 0, 1),
        (17, 1, 0),
        (17, 1, 1),
        (18, 0, 0),
        (18, 0, 1),
        (18, 1, 0),
        (18, 1, 1),
        (19, 0, 0),
        (19, 0, 1),
        (19, 1, 0),
        (19, 1, 1),
        (20, 0, 0),
        (20, 0, 1),
        (20, 1, 0),
        (20, 1, 1),
        (21, 0, 0),
        (21, 0, 1),
        (21, 1, 0),
        (21, 1, 1),
        (22, 0, 0),
        (22, 0, 1),
        (22, 1, 0),
        (22, 1, 1),
        (23, 0, 0),
        (23, 0, 1),
        (23, 1, 0),
        (23, 1, 1),
        (24, 0, 0),
        (24, 0, 1),
        (24, 1, 0),
        (24, 1, 1),
        (25, 0, 0),
        (25, 0, 1),
        (25, 1, 0),
        (25, 1, 1),
        (26, 0, 0),
        (26, 0, 1),
        (26, 1, 0),
        (26, 1, 1),
        (27, 0, 0),
        (27, 0, 1),
        (27, 1, 0),
        (27, 1, 1),
        (28, 0, 0),
        (28, 0, 1),
        (28, 1, 0),
        (28, 1, 1),
        (29, 0, 0),
        (29, 0, 1),
        (29, 1, 0),
        (29, 1, 1),
        (30, 0, 0),
        (30, 0, 1),
        (30, 1, 0),
        (30, 1, 1),
        (31, 0, 0),
        (31, 0, 1),
        (31, 1, 0),
        (31, 1, 1),
        (32, 0, 0),
        (32, 0, 1),
        (32, 1, 0),
        (32, 1, 1),
        (33, 1, 1),
        (34, 1, 1),
        (35, 1, 1),
        (36, 1, 1),
        (37, 1, 1),
        (38, 1, 1),
        (39, 1, 1),
        (40, 1, 1),
        (41, 1, 1),
        (42, 1, 1),
        (43, 1, 1),
        (44, 1, 1),
        (45, 1, 1),
        (46, 1, 1),
        (47, 1, 1),
        (48, 1, 1),
        (49, 1, 1),
        (50, 1, 1),
        (51, 1, 1),
        (52, 1, 1),
        (53, 1, 1),
        (54, 1, 1),
        (55, 1, 1),
        (56, 1, 1),
        (57, 1, 1),
        (58, 1, 1),
        (59, 1, 1),
        (60, 1, 1),
        (61, 1, 1),
        (62, 1, 1),
        (63, 1, 1),
        (64, 1, 1),
        (65, 1, 1),
        (66, 1, 1),
        (67, 1, 1),
    ]
}

/// Entry `i` of `t` is the state with ranks `ranks[i]`: its match count is
/// the first rank, each successor is the position of the ranks the rules
/// give, and the ranks increase from `i` to `i + 1`.
pub open spec fn row_ok(t: Seq<HistoryState>, ranks: Seq<(int, int, int)>, i: int) -> bool {
    let r = ranks[i];
    let e = t[i];
    &&& e.first_count_spec() == r.0
    &&& e.next_if_first_spec() < ranks.len() && ranks[e.next_if_first_spec() as int] == ranks_after(r, ByteMatched::First)
    &&& e.next_if_second_spec() < ranks.len() && ranks[e.next_if_second_spec() as int] == ranks_after(r, ByteMatched::Second)
    &&& e.next_if_third_spec() < ranks.len() && ranks[e.next_if_third_spec() as int] == ranks_after(r, ByteMatched::Third)
    &&& e.next_if_miss_spec() < ranks.len() && ranks[e.next_if_miss_spec() as int] == ranks_after(r, ByteMatched::Miss)
    &&& (i + 1 < ranks.len() ==> ranks_before(r, ranks[i + 1]))
}

/// The table lists, in increasing order and starting from `(0, 0, 0)`, a
/// set of rank triples closed under the rank rules, each state moving to
/// the state of its successor ranks.
pub open spec fn follows_rank_rules(t: Seq<HistoryState>, ranks: Seq<(int, int, int)>) -> bool {
    &&& ranks.len() <= t.len()
    &&& ranks.len() > 0
    &&& ranks[0] == (0int, 0int, 0int)
    &&& forall|i: int| 0 <= i < ranks.len() ==> #[trigger] row_ok(t, ranks, i)
}

/// The primary table follows the rank rules.
pub proof fn lemma_history_follows_rules()
    ensures
        follows_rank_rules(history_states(), history_ranks()),
{
    let t = history_states();
    let rk = history_ranks();
    assert(rk.len() == 255);
    assert(t.len() == 256);
    assert(row_ok(t, rk, 0));
    assert(row_ok(t, rk, 1));
    assert(row_ok(t, rk, 2));
    assert(row_ok(t, rk, 3));
    assert(row_ok(t, rk, 4));
    assert(row_ok(t, rk, 5));
    assert(row_ok(t, rk, 6));
    assert(row_ok(t, rk, 7));
    assert(row_ok(t, rk, 8));
    assert(row_ok(t, rk, 9));
    assert(row_ok(t, rk, 10));
    assert(row_ok(t, rk, 11));
    assert(row_ok(t, rk, 12));
    assert(row_ok(t, rk, 13));
    assert(row_ok(t, rk, 14));
    assert(row_ok(t, rk, 15));
    assert(row_ok(t, rk, 16));
    assert(row_ok(t, rk, 17));
    assert(row_ok(t, rk, 18));
    assert(row_ok(t, rk, 19));
    assert(row_ok(t, rk, 20));
    assert(row_ok(t, rk, 21));
    assert(row_ok(t, rk, 22));
    assert(row_ok(t, rk, 23));
    assert(row_ok(t, rk, 24));
    assert(row_ok(t, rk, 25));
    assert(row_ok(t, rk, 26));
    assert(row_ok(t, rk, 27));
    assert(row_ok(t, rk, 28));
    assert(row_ok(t, rk, 29));
    assert(row_ok(t, rk, 30));
    assert(row_ok(t, rk, 31));
    assert(row_ok(t, rk, 32));
    assert(row_ok(t, rk, 33));
    assert(row_ok(t, rk, 34));
    assert(row_ok(t, rk, 35));
    assert(row_ok(t, rk, 36));
    assert(row_ok(t, rk, 37));
    assert(row_ok(t, rk, 38));
    assert(row_ok(t, rk, 39));
    assert(row_ok(t, rk, 40));
    assert(row_ok(t, rk, 41));
    assert(row_ok(t, rk, 42));
    assert(row_ok(t, rk, 43));
    assert(row_ok(t, rk, 44));
    assert(row_ok(t, rk, 45));
    assert(row_ok(t, rk, 46));
    assert(row_ok(t, rk, 47));
    assert(row_ok(t, rk, 48));
    assert(row_ok(t, rk, 49));
    assert(row_ok(t, rk, 50));
    assert(row_ok(t, rk, 51));
    assert(row_ok(t, rk, 52));
    assert(row_ok(t, rk, 53));
    assert(row_ok(t, rk, 54));
    assert(row_ok(t, rk, 55));
    assert(row_ok(t, rk, 56));
    assert(row_ok(t, rk, 57));
    assert(row_ok(t, rk, 58));
    assert(row_ok(t, rk, 59));
    assert(row_ok(t, rk, 60));
    assert(row_ok(t, rk, 61));
    assert(row_ok(t, rk, 62));
    assert(row_ok(t, rk, 63));
    assert(row_ok(t, rk, 64));
    assert(row_ok(t, rk, 65));
    assert(row_ok(t, rk, 66));
    assert(row_ok(t, rk, 67));
    assert(row_ok(t, rk, 68));
    assert(row_ok(t, rk, 69));
    assert(row_ok(t, rk, 70));
    assert(row_ok(t, rk, 71));
    assert(row_ok(t, rk, 72));
    assert(row_ok(t, rk, 73));
    assert(row_ok(t, rk, 74));
    assert(row_ok(t, rk, 75));
    assert(row_ok(t, rk, 76));
    assert(row_ok(t, rk, 77));
    assert(row_ok(t, rk, 78));
    assert(row_ok(t, rk, 79));
    assert(row_ok(t, rk, 80));
    assert(row_ok(t, rk, 81));
    assert(row_ok(t, rk, 82));
    assert(row_ok(t, rk, 83));
    assert(row_ok(t, rk, 84));
    assert(row_ok(t, rk, 85));
    assert(row_ok(t, rk, 86));
    assert(row_ok(t, rk, 87));
    assert(row_ok(t, rk, 88));
    assert(row_ok(t, rk, 89));
    assert(row_ok(t, rk, 90));
    assert(row_ok(t, rk, 91));
    assert(row_ok(t, rk, 92));
    assert(row_ok(t, rk, 93));
    assert(row_ok(t, rk, 94));
    assert(row_ok(t, rk, 95));
    assert(row_ok(t, rk, 96));
    assert(row_ok(t, rk, 97));
    assert(row_ok(t, rk, 98));
    assert(row_ok(t, rk, 99));
    assert(row_ok(t, rk, 100));
    assert(row_ok(t, rk, 101));
    assert(row_ok(t, rk, 102));
    assert(row_ok(t, rk, 103));
    assert(row_ok(t, rk, 104));
    assert(row_ok(t, rk, 105));
    assert(row_ok(t, rk, 106));
    assert(row_ok(t, rk, 107));
    assert(row_ok(t, rk, 108));
    assert(row_ok(t, rk, 109));
    assert(row_ok(t, rk, 110));
    assert(row_ok(t, rk, 111));
    assert(row_ok(t, rk, 112));
    assert(row_ok(t, rk, 113));
    assert(row_ok(t, rk, 114));
    assert(row_ok(t, rk, 115));
    assert(row_ok(t, rk, 116));
    assert(row_ok(t, rk, 117));
    assert(row_ok(t, rk, 118));
    assert(row_ok(t, rk, 119));
    assert(row_ok(t, rk, 120));
    assert(row_ok(t, rk, 121));
    assert(row_ok(t, rk, 122));
    assert(row_ok(t, rk, 123));
    assert(row_ok(t, rk, 124));
    assert(row_ok(t, rk, 125));
    assert(row_ok(t, rk, 126));
    assert(row_ok(t, rk, 127));
    assert(row_ok(t, rk, 128));
    assert(row_ok(t, rk, 129));
    assert(row_ok(t, rk, 130));
    assert(row_ok(t, rk, 131));
    assert(row_ok(t, rk, 132));
    assert(row_ok(t, rk, 133));
    assert(row_ok(t, rk, 134));
    assert(row_ok(t, rk, 135));
    assert(row_ok(t, rk, 136));
    assert(row_ok(t, rk, 137));
    assert(row_ok(t, rk, 138));
    assert(row_ok(t, rk, 139));
    assert(row_ok(t, rk, 140));
    assert(row_ok(t, rk, 141));
    assert(row_ok(t, rk, 142));
    assert(row_ok(t, rk, 143));
    assert(row_ok(t, rk, 144));
    assert(row_ok(t, rk, 145));
    assert(row_ok(t, rk, 146));
    assert(row_ok(t, rk, 147));
    assert(row_ok(t, rk, 148));
    assert(row_ok(t, rk, 149));
    assert(row_ok(t, rk, 150));
    assert(row_ok(t, rk, 151));
    assert(row_ok(t, rk, 152));
    assert(row_ok(t, rk, 153));
    assert(row_ok(t, rk, 154));
    assert(row_ok(t, rk, 155));
    assert(row_ok(t, rk, 156));
    assert(row_ok(t, rk, 157));
    assert(row_ok(t, rk, 158));
    assert(row_ok(t, rk, 159));
    assert(row_ok(t, rk, 160));
    assert(row_ok(t, rk, 161));
    assert(row_ok(t, rk, 162));
    assert(row_ok(t, rk, 163));
    assert(row_ok(t, rk, 164));
    assert(row_ok(t, rk, 165));
    assert(row_ok(t, rk, 166));
    assert(row_ok(t, rk, 167));
    assert(row_ok(t, rk, 168));
    assert(row_ok(t, rk, 169));
    assert(row_ok(t, rk, 170));
    assert(row_ok(t, rk, 171));
    assert(row_ok(t, rk, 172));
    assert(row_ok(t, rk, 173));
    assert(row_ok(t, rk, 174));
    assert(row_ok(t, rk, 175));
    assert(row_ok(t, rk, 176));
    assert(row_ok(t, rk, 177));
    assert(row_ok(t, rk, 178));
    assert(row_ok(t, rk, 179));
    assert(row_ok(t, rk, 180));
    assert(row_ok(t, rk, 181));
    assert(row_ok(t, rk, 182));
    assert(row_ok(t, rk, 183));
    assert(row_ok(t, rk, 184));
    assert(row_ok(t, rk, 185));
    assert(row_ok(t, rk, 186));
    assert(row_ok(t, rk, 187));
    assert(row_ok(t, rk, 188));
    assert(row_ok(t, rk, 189));
    assert(row_ok(t, rk, 190));
    assert(row_ok(t, rk, 191));
    assert(row_ok(t, rk, 192));
    assert(row_ok(t, rk, 193));
    assert(row_ok(t, rk, 194));
    assert(row_ok(t, rk, 195));
    assert(row_ok(t, rk, 196));
    assert(row_ok(t, rk, 197));
    assert(row_ok(t, rk, 198));
    assert(row_ok(t, rk, 199));
    assert(row_ok(t, rk, 200));
    assert(row_ok(t, rk, 201));
    assert(row_ok(t, rk, 202));
    assert(row_ok(t, rk, 203));
    assert(row_ok(t, rk, 204));
    assert(row_ok(t, rk, 205));
    assert(row_ok(t, rk, 206));
    assert(row_ok(t, rk, 207));
    assert(row_ok(t, rk, 208));
    assert(row_ok(t, rk, 209));
    assert(row_ok(t, rk, 210));
    assert(row_ok(t, rk, 211));
    assert(row_ok(t, rk, 212));
    assert(row_ok(t, rk, 213));
    assert(row_ok(t, rk, 214));
    assert(row_ok(t, rk, 215));
    assert(row_ok(t, rk, 216));
    assert(row_ok(t, rk, 217));
    assert(row_ok(t, rk, 218));
    assert(row_ok(t, rk, 219));
    assert(row_ok(t, rk, 220));
    assert(row_ok(t, rk, 221));
    assert(row_ok(t, rk, 222));
    assert(row_ok(t, rk, 223));
    assert(row_ok(t, rk, 224));
    assert(row_ok(t, rk, 225));
    assert(row_ok(t, rk, 226));
    assert(row_ok(t, rk, 227));
    assert(row_ok(t, rk, 228));
    assert(row_ok(t, rk, 229));
    assert(row_ok(t, rk, 230));
    assert(row_ok(t, rk, 231));
    assert(row_ok(t, rk, 232));
    assert(row_ok(t, rk, 233));
    assert(row_ok(t, rk, 234));
    assert(row_ok(t, rk, 235));
    assert(row_ok(t, rk, 236));
    assert(row_ok(t, rk, 237));
    assert(row_ok(t, rk, 238));
    assert(row_ok(t, rk, 239));
    assert(row_ok(t, rk, 240));
    assert(row_ok(t, rk, 241));
    assert(row_ok(t, rk, 242));
    assert(row_ok(t, rk, 243));
    assert(row_ok(t, rk, 244));
    assert(row_ok(t, rk, 245));
    assert(row_ok(t, rk, 246));
    assert(row_ok(t, rk, 247));
    assert(row_ok(t, rk, 248));
    assert(row_ok(t, rk, 249));
    assert(row_ok(t, rk, 250));
    assert(row_ok(t, rk, 251));
    assert(row_ok(t, rk, 252));
    assert(row_ok(t, rk, 253));
    assert(row_ok(t, rk, 254));
    assert forall|i: int| 0 <= i < rk.len() implies #[trigger] row_ok(t, rk, i) by {}
}

/// The primary state table. Index 0 is the state of a fresh slot; the
/// table has 256 entries, so every successor index is a valid position.
pub struct HistoryStateTable {
    states: Vec<HistoryState>,
}

impl HistoryStateTable {
    /// The entries of the table.
    pub closed spec fn view(&self) -> Seq<HistoryState> {
        self.states@
    }

    /// Every index of a `u8` is a position of the table.
    pub open spec fn wf(&self) -> bool {
        self@.len() == 256
    }

    /// The entry at `index`.
    pub fn get(&self, index: usize) -> (r: HistoryState)
        requires
            self.wf(),
            index < 256,
        ensures
            r == self@[index as int],
    {
        self.states[index]
    }

    /// The entries as a vector.
    pub fn to_vec(&self) -> (r: Vec<HistoryState>)
        ensures
            r@ == self@,
    {
        self.states.clone()
    }

    /// The table of the states reachable from `(0, 0, 0)` under the rank
    /// rules, in increasing order of `(first, second, third)` rank. The last
    /// entry is unreachable and only fills the table to 256 entries.
    pub fn new() -> (r: HistoryStateTable)
        ensures
            r.wf(),
            r@ == history_states(),
            follows_rank_rules(r@, history_ranks()),
    {
        proof {
            lemma_history_follows_rules();
        }
        let states: Vec<HistoryState> = vec![
        HistoryState::new(0, 27, 0, 0, 0),
        HistoryState::new(0, 28, 1, 27, 0),
        HistoryState::new(0, 28, 1, 54, 0),
        HistoryState::new(0, 29, 2, 74, 0),
        HistoryState::new(0, 31, 27, 1, 1),
        HistoryState::new(0, 32, 28, 28, 1),
        HistoryState::new(0, 32, 28, 55, 1),
        HistoryState::new(0, 33, 29, 75, 1),
        HistoryState::new(0, 31, 54, 1, 1),
        HistoryState::new(0, 32, 55, 28, 1),
        HistoryState::new(0, 32, 55, 55, 1),
        HistoryState::new(0, 33, 56, 75, 1),
        HistoryState::new(0, 35, 74, 2, 2),
        HistoryState::new(0, 36, 75, 29, 2),
        HistoryState::new(0, 36, 75, 56, 2),
        HistoryState::new(0, 37, 76, 76, 2),
        HistoryState::new(0, 39, 90, 3, 3),
        HistoryState::new(0, 40, 91, 30, 3),
        HistoryState::new(0, 40, 91, 57, 3),
        HistoryState::new(0, 41, 92, 77, 3),
        HistoryState::new(0, 43, 102, 3, 3),
        HistoryState::new(0, 44, 103, 30, 3),
        HistoryState::new(0, 44, 103, 57, 3),
        HistoryState::new(0, 47, 110, 3, 3),
        HistoryState::new(0, 48, 111, 30, 3),
        HistoryState::new(0, 50, 116, 3, 3),
        HistoryState::new(0, 51, 117, 30, 3),
        HistoryState::new(1, 54, 4, 4, 4),
        HistoryState::new(1, 55, 5, 31, 4),
        HistoryState::new(1, 55, 5, 58, 4),
        HistoryState::new(1, 56, 6, 78, 4),
        HistoryState::new(1, 58, 31, 5, 5),
        HistoryState::new(1, 59, 32, 32, 5),
        HistoryState::new(1, 59, 32, 59, 5),
        HistoryState::new(1, 60, 33, 79, 5),
        HistoryState::new(1, 58, 58, 5, 5),
        HistoryState::new(1, 59, 59, 32, 5),
        HistoryState::new(1, 59, 59, 59, 5),
        HistoryState::new(1, 60, 60, 79, 5),
        HistoryState::new(1, 62, 78, 6, 6),
        HistoryState::new(1, 63, 79, 33, 6),
        HistoryState::new(1, 63, 79, 60, 6),
        HistoryState::new(1, 64, 80, 80, 6),
        HistoryState::new(1, 65, 93, 7, 7),
        HistoryState::new(1, 66, 94, 34, 7),
        HistoryState::new(1, 66, 94, 61, 7),
        HistoryState::new(1, 67, 95, 81, 7),
        HistoryState::new(1, 68, 104, 7, 7),
        HistoryState::new(1, 69, 105, 34, 7),
        HistoryState::new(1, 69, 105, 61, 7),
        HistoryState::new(1, 70, 112, 7, 7),
        HistoryState::new(1, 71, 113, 34, 7),
        HistoryState::new(1, 72, 118, 7, 7),
        HistoryState::new(1, 73, 119, 34, 7),
        HistoryState::new(2, 74, 8, 8, 8),
        HistoryState::new(2, 75, 9, 35, 8),
        HistoryState::new(2, 75, 9, 62, 8),
        HistoryState::new(2, 76, 10, 82, 8),
        HistoryState::new(2, 78, 35, 9, 9),
        HistoryState::new(2, 79, 36, 36, 9),
        HistoryState::new(2, 79, 36, 63, 9),
        HistoryState::new(2, 80, 37, 83, 9),
        HistoryState::new(2, 78, 62, 9, 9),
        HistoryState::new(2, 79, 63, 36, 9),
        HistoryState::new(2, 79, 63, 63, 9),
        HistoryState::new(2, 82, 82, 10, 10),
        HistoryState::new(2, 83, 83, 37, 10),
        HistoryState::new(2, 83, 83, 64, 10),
        HistoryState::new(2, 84, 96, 11, 11),
        HistoryState::new(2, 85, 97, 38, 11),
        HistoryState::new(2, 86, 106, 11, 11),
        HistoryState::new(2, 87, 107, 38, 11),
        HistoryState::new(2, 88, 114, 11, 11),
        HistoryState::new(2, 89, 115, 38, 11),
        HistoryState::new(3, 90, 12, 12, 12),
        HistoryState::new(3, 91, 13, 39, 12),
        HistoryState::new(3, 91, 13, 65, 12),
        HistoryState::new(3, 92, 14, 84, 12),
        HistoryState::new(3, 93, 39, 13, 13),
        HistoryState::new(3, 94, 40, 40, 13),
        HistoryState::new(3, 94, 40, 66, 13),
        HistoryState::new(3, 95, 41, 85, 13),
        HistoryState::new(3, 93, 65, 13, 13),
        HistoryState::new(3, 94, 66, 40, 13),
        HistoryState::new(3, 96, 84, 14, 14),
        HistoryState::new(3, 97, 85, 41, 14),
        HistoryState::new(3, 98, 98, 15, 15),
        HistoryState::new(3, 99, 99, 42, 15),
        HistoryState::new(3, 100, 108, 15, 15),
        HistoryState::new(3, 101, 109, 42, 15),
        HistoryState::new(4, 102, 16, 16, 16),
        HistoryState::new(4, 103, 17, 43, 16),
        HistoryState::new(4, 103, 17, 68, 16),
        HistoryState::new(4, 104, 43, 17, 17),
        HistoryState::new(4, 105, 44, 44, 17),
        HistoryState::new(4, 105, 44, 69, 17),
        HistoryState::new(4, 104, 68, 17, 17),
        HistoryState::new(4, 105, 69, 44, 17),
        HistoryState::new(4, 106, 86, 18, 18),
        HistoryState::new(4, 107, 87, 45, 18),
        HistoryState::new(4, 108, 100, 19, 19),
        HistoryState::new(4, 109, 101, 46, 19),
        HistoryState::new(5, 110, 20, 20, 20),
        HistoryState::new(5, 111, 21, 47, 20),
        HistoryState::new(5, 112, 47, 21, 21),
        HistoryState::new(5, 113, 48, 48, 21),
        HistoryState::new(5, 112, 70, 21, 21),
        HistoryState::new(5, 113, 71, 48, 21),
        HistoryState::new(5, 114, 88, 22, 22),
        HistoryState::new(5, 115, 89, 49, 22),
        HistoryState::new(6, 116, 23, 23, 23),
        HistoryState::new(6, 117, 24, 50, 23),
        HistoryState::new(6, 118, 50, 24, 24),
        HistoryState::new(6, 119, 51, 51, 24),
        HistoryState::new(6, 118, 72, 24, 24),
        HistoryState::new(6, 119, 73, 51, 24),
        HistoryState::new(7, 120, 25, 25, 25),
        HistoryState::new(7, 121, 26, 52, 25),
        HistoryState::new(7, 122, 52, 26, 26),
        HistoryState::new(7, 123, 53, 53, 26),
        HistoryState::new(8, 124, 25, 25, 25),
        HistoryState::new(8, 125, 26, 52, 25),
        HistoryState::new(8, 126, 52, 26, 26),
        HistoryState::new(8, 127, 53, 53, 26),
        HistoryState::new(9, 128, 25, 25, 25),
        HistoryState::new(9, 129, 26, 52, 25),
        HistoryState::new(9, 130, 52, 26, 26),
        HistoryState::new(9, 131, 53, 53, 26),
        HistoryState::new(10, 132, 25, 25, 25),
        HistoryState::new(10, 133, 26, 52, 25),
        HistoryState::new(10, 134, 52, 26, 26),
        HistoryState::new(10, 135, 53, 53, 26),
        HistoryState::new(11, 136, 25, 25, 25),
        HistoryState::new(11, 137, 26, 52, 25),
        HistoryState::new(11, 138, 52, 26, 26),
        HistoryState::new(11, 139, 53, 53, 26),
        HistoryState::new(12, 140, 25, 25, 25),
        HistoryState::new(12, 141, 26, 52, 25),
        HistoryState::new(12, 142, 52, 26, 26),
        HistoryState::new(12, 143, 53, 53, 26),
        HistoryState::new(13, 144, 25, 25, 25),
        HistoryState::new(13, 145, 26, 52, 25),
        HistoryState::new(13, 146, 52, 26, 26),
        HistoryState::new(13, 147, 53, 53, 26),
        HistoryState::new(14, 148, 25, 25, 25),
        HistoryState::new(14, 149, 26, 52, 25),
        HistoryState::new(14, 150, 52, 26, 26),
        HistoryState::new(14, 151, 53, 53, 26),
        HistoryState::new(15, 152, 25, 25, 25),
        HistoryState::new(15, 153, 26, 52, 25),
        HistoryState::new(15, 154, 52, 26, 26),
        HistoryState::new(15, 155, 53, 53, 26),
        HistoryState::new(16, 156, 25, 25, 25),
        HistoryState::new(16, 157, 26, 52, 25),
        HistoryState::new(16, 158, 52, 26, 26),
        HistoryState::new(16, 159, 53, 53, 26),
        HistoryState::new(17, 160, 25, 25, 25),
        HistoryState::new(17, 161, 26, 52, 25),
        HistoryState::new(17, 162, 52, 26, 26),
        HistoryState::new(17, 163, 53, 53, 26),
        HistoryState::new(18, 164, 25, 25, 25),
        HistoryState::new(18, 165, 26, 52, 25),
        HistoryState::new(18, 166, 52, 26, 26),
        HistoryState::new(18, 167, 53, 53, 26),
        HistoryState::new(19, 168, 25, 25, 25),
        HistoryState::new(19, 169, 26, 52, 25),
        HistoryState::new(19, 170, 52, 26, 26),
        HistoryState::new(19, 171, 53, 53, 26),
        HistoryState::new(20, 172, 25, 25, 25),
        HistoryState::new(20, 173, 26, 52, 25),
        HistoryState::new(20, 174, 52, 26, 26),
        HistoryState::new(20, 175, 53, 53, 26),
        HistoryState::new(21, 176, 25, 25, 25),
        HistoryState::new(21, 177, 26, 52, 25),
        HistoryState::new(21, 178, 52, 26, 26),
        HistoryState::new(21, 179, 53, 53, 26),
        HistoryState::new(22, 180, 25, 25, 25),
        HistoryState::new(22, 181, 26, 52, 25),
        HistoryState::new(22, 182, 52, 26, 26),
        HistoryState::new(22, 183, 53, 53, 26),
        HistoryState::new(23, 184, 25, 25, 25),
        HistoryState::new(23, 185, 26, 52, 25),
        HistoryState::new(23, 186, 52, 26, 26),
        HistoryState::new(23, 187, 53, 53, 26),
        HistoryState::new(24, 188, 25, 25, 25),
        HistoryState::new(24, 189, 26, 52, 25),
        HistoryState::new(24, 190, 52, 26, 26),
        HistoryState::new(24, 191, 53, 53, 26),
        HistoryState::new(25, 192, 25, 25, 25),
        HistoryState::new(25, 193, 26, 52, 25),
        HistoryState::new(25, 194, 52, 26, 26),
        HistoryState::new(25, 195, 53, 53, 26),
        HistoryState::new(26, 196, 25, 25, 25),
        HistoryState::new(26, 197, 26, 52, 25),
        HistoryState::new(26, 198, 52, 26, 26),
        HistoryState::new(26, 199, 53, 53, 26),
        HistoryState::new(27, 200, 25, 25, 25),
        HistoryState::new(27, 201, 26, 52, 25),
        HistoryState::new(27, 202, 52, 26, 26),
        HistoryState::new(27, 203, 53, 53, 26),
        HistoryState::new(28, 204, 25, 25, 25),
        HistoryState::new(28, 205, 26, 52, 25),
        HistoryState::new(28, 206, 52, 26, 26),
        HistoryState::new(28, 207, 53, 53, 26),
        HistoryState::new(29, 208, 25, 25, 25),
        HistoryState::new(29, 209, 26, 52, 25),
        HistoryState::new(29, 210, 52, 26, 26),
        HistoryState::new(29, 211, 53, 53, 26),
        HistoryState::new(30, 212, 25, 25, 25),
        HistoryState::new(30, 213, 26, 52, 25),
        HistoryState::new(30, 214, 52, 26, 26),
        HistoryState::new(30, 215, 53, 53, 26),
        HistoryState::new(31, 216, 25, 25, 25),
        HistoryState::new(31, 217, 26, 52, 25),
        HistoryState::new(31, 218, 52, 26, 26),
        HistoryState::new(31, 219, 53, 53, 26),
        HistoryState::new(32, 220, 25, 25, 25),
        HistoryState::new(32, 220, 26, 52, 25),
        HistoryState::new(32, 220, 52, 26, 26),
        HistoryState::new(32, 220, 53, 53, 26),
        HistoryState::new(33, 221, 53, 53, 26),
        HistoryState::new(34, 222, 53, 53, 26),
        HistoryState::new(35, 223, 53, 53, 26),
        HistoryState::new(36, 224, 53, 53, 26),
        HistoryState::new(37, 225, 53, 53, 26),
        HistoryState::new(38, 226, 53, 53, 26),
        HistoryState::new(39, 227, 53, 53, 26),
        HistoryState::new(40, 228, 53, 53, 26),
        HistoryState::new(41, 229, 53, 53, 26),
        HistoryState::new(42, 230, 53, 53, 26),
        HistoryState::new(43, 231, 53, 53, 26),
        HistoryState::new(44, 232, 53, 53, 26),
        HistoryState::new(45, 233, 53, 53, 26),
        HistoryState::new(46, 234, 53, 53, 26),
        HistoryState::new(47, 235, 53, 53, 26),
        HistoryState::new(48, 236, 53, 53, 26),
        HistoryState::new(49, 237, 53, 53, 26),
        HistoryState::new(50, 238, 53, 53, 26),
        HistoryState::new(51, 239, 53, 53, 26),
        HistoryState::new(52, 240, 53, 53, 26),
        HistoryState::new(53, 241, 53, 53, 26),
        HistoryState::new(54, 242, 53, 53, 26),
        HistoryState::new(55, 243, 53, 53, 26),
        HistoryState::new(56, 244, 53, 53, 26),
        HistoryState::new(57, 245, 53, 53, 26),
        HistoryState::new(58, 246, 53, 53, 26),
        HistoryState::new(59, 247, 53, 53, 26),
        HistoryState::new(60, 248, 53, 53, 26),
        HistoryState::new(61, 249, 53, 53, 26),
        HistoryState::new(62, 250, 53, 53, 26),
        HistoryState::new(63, 251, 53, 53, 26),
        HistoryState::new(64, 252, 53, 53, 26),
        HistoryState::new(65, 253, 53, 53, 26),
        HistoryState::new(66, 254, 53, 53, 26),
        HistoryState::new(67, 254, 53, 53, 26),
        HistoryState::new(0, 0, 0, 0, 0),
        ];
        assert(states@ =~= history_states());
        HistoryStateTable { states }
    }
}

} // verus!
