//! The state machine of the secondary model's bit predictors.
use crate::bit::Bit;
use vstd::prelude::*;

verus! {

/// Number of levels of counted states.
pub const LEVELS: usize = 64;

/// Number of counted states: level `l` holds `l + 1` of them.
pub const COUNTED: usize = 2080;

/// Number of prediction-only pool states.
pub const POOL: usize = 63456;

/// Number of entries of the secondary state table.
pub const STATES: usize = 65536;

/// Index of the first counted state of `level`.
pub open spec fn tri(level: int) -> int
    decreases level,
{
    if level <= 0 {
        0
    } else {
        tri(level - 1) + level
    }
}

/// Numerator of the probability of pool entry `j`: the grid point
/// `(j + 1) / (POOL + 1)` rescaled by `p^2 / (p^2 + (1 - p)^2)`.
pub open spec fn pool_num(j: int) -> int {
    (j + 1) * (j + 1)
}

/// Denominator of the probability of pool entry `j`.
pub open spec fn pool_den(j: int) -> int {
    (j + 1) * (j + 1) + (POOL - j) * (POOL - j)
}

/// Pool entry `j` is strictly below the probability `xn / xd`.
pub open spec fn pool_below(xn: int, xd: int, j: int) -> bool {
    pool_num(j) * xd < xn * pool_den(j)
}

/// `idx` is where `xn / xd` would be inserted in the sorted pool: every
/// entry before it is below, the entry at it is not.
pub open spec fn is_insertion(xn: int, xd: int, idx: int) -> bool {
    &&& 0 <= idx <= POOL
    &&& (idx == 0 || pool_below(xn, xd, idx - 1))
    &&& (idx == POOL || !pool_below(xn, xd, idx))
}

/// The pool entry that `xn / xd` snaps to from insertion point `idx`: an
/// equal entry if there is one, else the previous entry in the lower half
/// of the pool and the next one in the upper half.
pub open spec fn snapped(xn: int, xd: int, idx: int) -> int {
    if idx < POOL && pool_num(idx) * xd == xn * pool_den(idx) {
        idx
    } else if idx == 0 {
        0
    } else if idx == POOL {
        POOL - 1
    } else if 2 * idx < POOL {
        idx - 1
    } else {
        idx
    }
}

/// `next` is the table index of the pool entry that `xn / xd` snaps to.
pub open spec fn pool_successor(xn: int, xd: int, next: int) -> bool {
    exists|idx: int| is_insertion(xn, xd, idx) && next == COUNTED + snapped(xn, xd, idx)
}

/// `n / d` rounded to a 32-bit fraction of one, halves rounded up.
pub open spec fn rounded(n: int, d: int) -> int {
    (n * 0x2_0000_0000 + d) / (2 * d)
}

/// One entry of the secondary state table: the probability of a one bit
/// as a fraction of `2^32`, and the successor for each bit.
#[derive(Copy, Clone, PartialEq, Eq, Structural, Debug)]
pub struct StateInfo {
    prediction: u32,
    next_if_zero: u16,
    next_if_one: u16,
}

impl StateInfo {
    /// The probability of a one bit, over `2^32`.
    pub closed spec fn prediction_spec(self) -> u32 {
        self.prediction
    }

    /// The successor after a zero bit.
    pub closed spec fn next_if_zero_spec(self) -> u16 {
        self.next_if_zero
    }

    /// The successor after a one bit.
    pub closed spec fn next_if_one_spec(self) -> u16 {
        self.next_if_one
    }

    /// The successor after `bit`.
    pub open spec fn next_spec(self, bit: Bit) -> u16 {
        match bit {
            Bit::Zero => self.next_if_zero_spec(),
            Bit::One => self.next_if_one_spec(),
        }
    }

    /// An entry with the given probability and successors.
    pub fn new(prediction: u32, next_if_zero: u16, next_if_one: u16) -> (r: StateInfo)
        ensures
            r.prediction_spec() == prediction,
            r.next_if_zero_spec() == next_if_zero,
            r.next_if_one_spec() == next_if_one,
    {
        StateInfo { prediction, next_if_zero, next_if_one }
    }

    /// The successor after `bit`.
    pub fn next(&self, bit: Bit) -> (r: u16)
        ensures
            r == self.next_spec(bit),
    {
        match bit {
            Bit::Zero => self.next_if_zero,
            Bit::One => self.next_if_one,
        }
    }

    /// The probability of a one bit, over `2^32`.
    pub fn prediction(&self) -> (r: u32)
        ensures
            r == self.prediction_spec(),
    {
        self.prediction
    }
}

/// The entry of counted state `k` of `level`: the Laplace estimate
/// `(2k + 1) / (2 level + 2)`. Below the last level its successors are the
/// counted states of the next level; from the last level they snap into
/// the pool.
pub open spec fn counted_entry_ok(level: int, k: int, e: StateInfo) -> bool {
    &&& e.prediction_spec() == rounded(2 * k + 1, 2 * level + 2)
    &&& if level + 1 < LEVELS {
        &&& e.next_if_zero_spec() == tri(level + 1) + k
        &&& e.next_if_one_spec() == tri(level + 1) + k + 1
    } else {
        &&& pool_successor(65 * (2 * k + 1), 66 * 128int, e.next_if_zero_spec() as int)
        &&& pool_successor(65 * (2 * k + 1) + 128, 66 * 128int, e.next_if_one_spec() as int)
    }
}

/// The entry of pool state `j`: with `p` its probability, the successors
/// snap `p - p / 66` and `p + (1 - p) / 66` back into the pool.
pub open spec fn pool_entry_ok(j: int, e: StateInfo) -> bool {
    &&& e.prediction_spec() == rounded(pool_num(j), pool_den(j))
    &&& pool_successor(65 * pool_num(j), 66 * pool_den(j), e.next_if_zero_spec() as int)
    &&& pool_successor(
        65 * pool_num(j) + pool_den(j),
        66 * pool_den(j),
        e.next_if_one_spec() as int,
    )
}

/// `n / d` as a 32-bit fraction of one, rounded to nearest.
fn round_prediction(n: u64, d: u64) -> (r: u32)
    requires
        0 < d < 0x2_0000_0000,
        n < d,
    ensures
        r == rounded(n as int, d as int),
{
    let num: u128 = n as u128 * 0x2_0000_0000u128 + d as u128;
    let den: u128 = 2 * d as u128;
    proof {
        let (ni, di) = (n as int, d as int);
        assert(ni * 0x2_0000_0000 + di < 0x1_0000_0000 * (2 * di)) by (nonlinear_arith)
            requires
                0 <= ni < di < 0x2_0000_0000,
        ;
        assert((ni * 0x2_0000_0000 + di) / (2 * di) < 0x1_0000_0000) by (nonlinear_arith)
            requires
                ni * 0x2_0000_0000 + di < 0x1_0000_0000 * (2 * di),
                di > 0,
                ni >= 0,
        ;
    }
    (num / den) as u32
}

/// Numerator and denominator of pool entry `j`.
fn pool_fraction(j: usize) -> (r: (u64, u64))
    requires
        j < POOL,
    ensures
        r.0 == pool_num(j as int),
        r.1 == pool_den(j as int),
        0 < r.0 < r.1 < 0x2_0000_0000,
{
    let a: u64 = j as u64 + 1;
    let b: u64 = (POOL - j) as u64;
    proof {
        assert(a * a <= 63456 * 63456) by (nonlinear_arith)
            requires
                1 <= a <= 63456,
        ;
        assert(b * b <= 63456 * 63456) by (nonlinear_arith)
            requires
                1 <= b <= 63456,
        ;
        assert(a * a >= 1 && b * b >= 1) by (nonlinear_arith)
            requires
                1 <= a,
                1 <= b,
        ;
    }
    (a * a, a * a + b * b)
}

/// Whether pool entry `j` is strictly below `xn / xd`.
fn below(xn: u128, xd: u128, j: usize) -> (r: bool)
    requires
        j < POOL,
        xn < 0x100_0000_0000,
        xd < 0x100_0000_0000,
    ensures
        r == pool_below(xn as int, xd as int, j as int),
{
    let (qn, qd) = pool_fraction(j);
    proof {
        assert(qn * xd < 0x2_0000_0000 * 0x100_0000_0000) by (nonlinear_arith)
            requires
                qn < 0x2_0000_0000,
                xd < 0x100_0000_0000,
        ;
        assert(xn * qd < 0x2_0000_0000 * 0x100_0000_0000) by (nonlinear_arith)
            requires
                qd < 0x2_0000_0000,
                xn < 0x100_0000_0000,
        ;
    }
    (qn as u128) * xd < xn * (qd as u128)
}

/// The table index of the pool entry that `xn / xd` snaps to.
fn snap(xn: u128, xd: u128) -> (r: u16)
    requires
        xn < 0x100_0000_0000,
        xd < 0x100_0000_0000,
    ensures
        pool_successor(xn as int, xd as int, r as int),
{
    let mut lo: usize = 0;
    let mut hi: usize = POOL;
    while lo < hi
        invariant
            0 <= lo <= hi <= POOL,
            xn < 0x100_0000_0000,
            xd < 0x100_0000_0000,
            lo == 0 || pool_below(xn as int, xd as int, lo - 1),
            hi == POOL || !pool_below(xn as int, xd as int, hi as int),
        decreases hi - lo,
    {
        let mid: usize = lo + (hi - lo) / 2;
        if below(xn, xd, mid) {
            lo = mid + 1;
        } else {
            hi = mid;
        }
    }
    let idx: usize = lo;
    let exact: bool = if idx < POOL {
        let (qn, qd) = pool_fraction(idx);
        proof {
            assert(qn * xd < 0x2_0000_0000 * 0x100_0000_0000) by (nonlinear_arith)
                requires
                    qn < 0x2_0000_0000,
                    xd < 0x100_0000_0000,
            ;
            assert(xn * qd < 0x2_0000_0000 * 0x100_0000_0000) by (nonlinear_arith)
                requires
                    qd < 0x2_0000_0000,
                    xn < 0x100_0000_0000,
            ;
        }
        (qn as u128) * xd == xn * (qd as u128)
    } else {
        false
    };
    let pick: usize = if exact {
        idx
    } else if idx == 0 {
        0
    } else if idx == POOL {
        POOL - 1
    } else if 2 * idx < POOL {
        idx - 1
    } else {
        idx
    };
    proof {
        assert(is_insertion(xn as int, xd as int, idx as int));
        assert(pick == snapped(xn as int, xd as int, idx as int));
    }
    (COUNTED + pick) as u16
}

/// Table index of counted state `k` of `level`.
pub open spec fn counted_index(level: int, k: int) -> int {
    tri(level) + k
}

proof fn lemma_tri(level: int)
    requires
        0 <= level,
    ensures
        2 * tri(level) == level * (level + 1),
    decreases level,
{
    if level > 0 {
        lemma_tri(level - 1);
        assert(tri(level) == tri(level - 1) + level);
        assert((level - 1) * level + 2 * level == level * (level + 1)) by (nonlinear_arith);
        assert(2 * tri(level) == (level - 1) * level + 2 * level);
    } else {
        assert(level * (level + 1) == 0) by (nonlinear_arith)
            requires
                level == 0,
        ;
    }
}

proof fn lemma_tri_mono(a: int, b: int)
    requires
        0 <= a <= b,
    ensures
        tri(a) <= tri(b),
    decreases b - a,
{
    if a < b {
        lemma_tri_mono(a, b - 1);
    }
}

/// The entry of counted state `k` of `level`; `next_level` is the index of
/// the first state of the level after it.
fn counted_entry(level: usize, k: usize, next_level: usize) -> (r: StateInfo)
    requires
        k <= level < LEVELS,
        next_level == tri(level + 1),
    ensures
        counted_entry_ok(level as int, k as int, r),
{
    let n: u64 = 2 * k as u64 + 1;
    let d: u64 = 2 * level as u64 + 2;
    let prediction = round_prediction(n, d);
    if level + 1 < LEVELS {
        proof {
            lemma_tri(level + 1);
            lemma_tri_mono(level as int + 1, 63);
            lemma_tri(63);
        }
        StateInfo::new(prediction, (next_level + k) as u16, (next_level + k + 1) as u16)
    } else {
        let zero = snap(65 * n as u128, 66 * 128);
        let one = snap(65 * n as u128 + 128, 66 * 128);
        StateInfo::new(prediction, zero, one)
    }
}

/// The entry of pool state `j`.
fn pool_entry(j: usize) -> (r: StateInfo)
    requires
        j < POOL,
    ensures
        pool_entry_ok(j as int, r),
{
    let (qn, qd) = pool_fraction(j);
    let prediction = round_prediction(qn, qd);
    let zero = snap(65 * qn as u128, 66 * qd as u128);
    let one = snap(65 * qn as u128 + qd as u128, 66 * qd as u128);
    StateInfo::new(prediction, zero, one)
}

/// The secondary state table: the counted states level by level, then the
/// pool in increasing order of probability. It has `2^16` entries, so every
/// successor is a valid position; entry 0 predicts one half.
pub struct SecondaryStateTable {
    states: Vec<StateInfo>,
}

impl SecondaryStateTable {
    /// The entries.
    pub closed spec fn view(&self) -> Seq<StateInfo> {
        self.states@
    }

    /// Every `u16` index is a position of the table.
    pub open spec fn wf(&self) -> bool {
        self@.len() == STATES
    }

    /// Every entry is the one the construction gives for its position.
    pub open spec fn built(&self) -> bool {
        &&& forall|level: int, k: int|
            0 <= k <= level < LEVELS ==> counted_entry_ok(
                level,
                k,
                #[trigger] self@[counted_index(level, k)],
            )
        &&& forall|j: int| 0 <= j < POOL ==> pool_entry_ok(j, #[trigger] self@[COUNTED + j])
    }

    /// Builds the table.
    pub fn new() -> (r: SecondaryStateTable)
        ensures
            r.wf(),
            r.built(),
    {
        let mut states: Vec<StateInfo> = Vec::with_capacity(STATES);
        let mut level: usize = 0;
        let mut base: usize = 0;
        while level < LEVELS
            invariant
                level <= LEVELS,
                base == tri(level as int),
                states@.len() == base,
                forall|l: int, k: int|
                    0 <= k <= l < level ==> counted_entry_ok(
                        l,
                        k,
                        #[trigger] states@[counted_index(l, k)],
                    ),
            decreases LEVELS - level,
        {
            proof {
                lemma_tri(level as int);
                lemma_tri_mono(level as int, 63);
                lemma_tri(63);
            }
            let next_level: usize = base + level + 1;
            let mut k: usize = 0;
            while k <= level
                invariant
                    level < LEVELS,
                    k <= level + 1,
                    base == tri(level as int),
                    next_level == tri(level + 1),
                    base + level + 1 <= COUNTED,
                    states@.len() == base + k,
                    forall|l: int, k2: int|
                        0 <= k2 <= l < level ==> counted_entry_ok(
                            l,
                            k2,
                            #[trigger] states@[counted_index(l, k2)],
                        ),
                    forall|k2: int|
                        0 <= k2 < k ==> counted_entry_ok(
                            level as int,
                            k2,
                            #[trigger] states@[counted_index(level as int, k2)],
                        ),
                decreases level + 1 - k,
            {
                let e = counted_entry(level, k, next_level);
                let ghost before = states@;
                states.push(e);
                proof {
                    assert(states@ == before.push(e));
                    assert forall|l: int, k2: int|
                        0 <= k2 <= l < level implies counted_entry_ok(
                        l,
                        k2,
                        #[trigger] states@[counted_index(l, k2)],
                    ) by {
                        lemma_tri_mono(l + 1, level as int);
                        lemma_tri_mono(0, l);
                        assert(tri(l + 1) == tri(l) + l + 1);
                        assert(counted_index(l, k2) < before.len());
                        assert(states@[counted_index(l, k2)] == before[counted_index(l, k2)]);
                    }
                    assert forall|k2: int|
                        0 <= k2 < k + 1 implies counted_entry_ok(
                        level as int,
                        k2,
                        #[trigger] states@[counted_index(level as int, k2)],
                    ) by {
                        if k2 < k {
                            assert(states@[counted_index(level as int, k2)] == before[counted_index(
                                level as int,
                                k2,
                            )]);
                        }
                    }
                }
                k = k + 1;
            }
            base = next_level;
            level = level + 1;
        }
        proof {
            lemma_tri(64);
        }
        let mut j: usize = 0;
        while j < POOL
            invariant
                j <= POOL,
                states@.len() == COUNTED + j,
                forall|l: int, k: int|
                    0 <= k <= l < LEVELS ==> counted_entry_ok(
                        l,
                        k,
                        #[trigger] states@[counted_index(l, k)],
                    ),
                forall|i: int| 0 <= i < j ==> pool_entry_ok(i, #[trigger] states@[COUNTED + i]),
            decreases POOL - j,
        {
            let e = pool_entry(j);
            let ghost before = states@;
            states.push(e);
            proof {
                lemma_tri(64);
                assert(states@ == before.push(e));
                assert forall|l: int, k: int|
                    0 <= k <= l < LEVELS implies counted_entry_ok(
                    l,
                    k,
                    #[trigger] states@[counted_index(l, k)],
                ) by {
                    lemma_tri_mono(l + 1, 64);
                    lemma_tri_mono(0, l);
                    assert(tri(l + 1) == tri(l) + l + 1);
                    assert(counted_index(l, k) < before.len());
                    assert(states@[counted_index(l, k)] == before[counted_index(l, k)]);
                }
                assert forall|i: int|
                    0 <= i < j + 1 implies pool_entry_ok(i, #[trigger] states@[COUNTED + i]) by {
                    if i < j {
                        assert(states@[COUNTED + i] == before[COUNTED + i]);
                    }
                }
            }
            j = j + 1;
        }
        SecondaryStateTable { states }
    }

    /// The entry at `index`.
    pub fn get(&self, index: u16) -> (r: StateInfo)
        requires
            self.wf(),
        ensures
            r == self@[index as int],
    {
        self.states[index as usize]
    }

    /// The entries as a vector.
    pub fn to_vec(&self) -> (r: Vec<StateInfo>)
        ensures
            r@ == self@,
    {
        self.states.clone()
    }
}

/// Consecutive pool entries increase.
proof fn lemma_pool_step(j: int)
    requires
        0 <= j < POOL - 1,
    ensures
        pool_num(j) * pool_den(j + 1) < pool_num(j + 1) * pool_den(j),
{
    let a = j + 1;
    let b = POOL - j;
    assert(pool_num(j + 1) == (a + 1) * (a + 1));
    assert(pool_den(j + 1) == (a + 1) * (a + 1) + (b - 1) * (b - 1));
    assert(a * (b - 1) < (a + 1) * b) by (nonlinear_arith)
        requires
            a >= 1,
            b >= 2,
    ;
    assert((a * (b - 1)) * (a * (b - 1)) < ((a + 1) * b) * ((a + 1) * b)) by (nonlinear_arith)
        requires
            0 <= a * (b - 1) < (a + 1) * b,
    ;
    assert((a * a) * ((a + 1) * (a + 1) + (b - 1) * (b - 1)) < ((a + 1) * (a + 1)) * (a * a + b * b))
        by (nonlinear_arith)
        requires
            (a * (b - 1)) * (a * (b - 1)) < ((a + 1) * b) * ((a + 1) * b),
    ;
}

/// `n1 / d1 < n2 / d2 < n3 / d3` gives `n1 / d1 < n3 / d3`.
proof fn lemma_less_trans(n1: int, d1: int, n2: int, d2: int, n3: int, d3: int)
    requires
        d1 > 0,
        d2 > 0,
        d3 > 0,
        n2 >= 0,
        n1 * d2 < n2 * d1,
        n2 * d3 < n3 * d2,
    ensures
        n1 * d3 < n3 * d1,
{
    assert(n1 * d3 < n3 * d1) by (nonlinear_arith)
        requires
            d1 > 0,
            d2 > 0,
            d3 > 0,
            n2 >= 0,
            n1 * d2 < n2 * d1,
            n2 * d3 < n3 * d2,
    {
        assert((n1 * d2) * d3 < (n2 * d1) * d3);
        assert((n2 * d3) * d1 < (n3 * d2) * d1);
        assert(n1 * d3 * d2 < n3 * d1 * d2);
    }
}

/// The pool is sorted: earlier entries are smaller.
proof fn lemma_pool_increasing(i: int, j: int)
    requires
        0 <= i < j < POOL,
    ensures
        pool_num(i) * pool_den(j) < pool_num(j) * pool_den(i),
    decreases j - i,
{
    lemma_pool_positive(i);
    lemma_pool_positive(j);
    lemma_pool_step(j - 1);
    if i < j - 1 {
        lemma_pool_increasing(i, j - 1);
        lemma_pool_positive(j - 1);
        lemma_less_trans(
            pool_num(i),
            pool_den(i),
            pool_num(j - 1),
            pool_den(j - 1),
            pool_num(j),
            pool_den(j),
        );
    }
}

proof fn lemma_pool_positive(j: int)
    requires
        0 <= j < POOL,
    ensures
        pool_num(j) > 0,
        pool_den(j) > 0,
{
    assert((j + 1) * (j + 1) > 0) by (nonlinear_arith)
        requires
            j >= 0,
    ;
    assert((POOL - j) * (POOL - j) > 0) by (nonlinear_arith)
        requires
            j < POOL,
    ;
}

/// A probability has one insertion point in the pool.
pub proof fn lemma_insertion_unique(xn: int, xd: int, i: int, j: int)
    requires
        xd > 0,
        is_insertion(xn, xd, i),
        is_insertion(xn, xd, j),
    ensures
        i == j,
{
    if i < j {
        lemma_below_is_prefix(xn, xd, i, j - 1);
    } else if j < i {
        lemma_below_is_prefix(xn, xd, j, i - 1);
    }
}

/// If pool entry `j` is below `xn / xd`, so is every earlier entry `i`.
proof fn lemma_below_is_prefix(xn: int, xd: int, i: int, j: int)
    requires
        xd > 0,
        0 <= i <= j < POOL,
        pool_below(xn, xd, j),
    ensures
        pool_below(xn, xd, i),
{
    if i < j {
        lemma_pool_increasing(i, j);
        lemma_pool_positive(i);
        lemma_pool_positive(j);
        lemma_less_trans(pool_num(i), pool_den(i), pool_num(j), pool_den(j), xn, xd);
    }
}

/// Every position of the counted part belongs to one level and rank.
proof fn lemma_counted_cover(level: int, i: int)
    requires
        0 <= level < LEVELS,
        tri(level) <= i < tri(LEVELS as int),
    ensures
        exists|l: int, k: int| 0 <= k <= l < LEVELS && counted_index(l, k) == i,
    decreases LEVELS - level,
{
    if i < tri(level + 1) {
        assert(counted_index(level, i - tri(level)) == i);
    } else {
        lemma_counted_cover(level + 1, i);
    }
}

impl SecondaryStateTable {
    /// Two complete tables are equal: the construction leaves no choice.
    pub proof fn lemma_unique(a: SecondaryStateTable, b: SecondaryStateTable)
        requires
            a.wf(),
            a.built(),
            b.wf(),
            b.built(),
        ensures
            a@ == b@,
    {
        lemma_tri(64);
        assert forall|i: int| 0 <= i < STATES implies a@[i] == b@[i] by {
            if i < COUNTED {
                lemma_counted_cover(0, i);
                let (l, k) = choose|l: int, k: int| 0 <= k <= l < LEVELS && counted_index(l, k) == i;
                let (ea, eb) = (a@[counted_index(l, k)], b@[counted_index(l, k)]);
                assert(counted_entry_ok(l, k, ea));
                assert(counted_entry_ok(l, k, eb));
                if l + 1 >= LEVELS {
                    lemma_same_successor(65 * (2 * k + 1), 66 * 128int, ea.next_if_zero_spec() as int, eb.next_if_zero_spec() as int);
                    lemma_same_successor(65 * (2 * k + 1) + 128, 66 * 128int, ea.next_if_one_spec() as int, eb.next_if_one_spec() as int);
                }
            } else {
                let j = i - COUNTED;
                let (ea, eb) = (a@[COUNTED + j], b@[COUNTED + j]);
                assert(pool_entry_ok(j, ea));
                assert(pool_entry_ok(j, eb));
                lemma_pool_positive(j);
                lemma_same_successor(65 * pool_num(j), 66 * pool_den(j), ea.next_if_zero_spec() as int, eb.next_if_zero_spec() as int);
                lemma_same_successor(
                    65 * pool_num(j) + pool_den(j),
                    66 * pool_den(j),
                    ea.next_if_one_spec() as int,
                    eb.next_if_one_spec() as int,
                );
            }
        }
        assert(a@ =~= b@);
    }
}

proof fn lemma_same_successor(xn: int, xd: int, n1: int, n2: int)
    requires
        xd > 0,
        pool_successor(xn, xd, n1),
        pool_successor(xn, xd, n2),
    ensures
        n1 == n2,
{
    let i = choose|idx: int| is_insertion(xn, xd, idx) && n1 == COUNTED + snapped(xn, xd, idx);
    let j = choose|idx: int| is_insertion(xn, xd, idx) && n2 == COUNTED + snapped(xn, xd, idx);
    lemma_insertion_unique(xn, xd, i, j);
}

/// `n1 / d1` at least one step of `2^-32` below `n2 / d2` rounds lower.
proof fn lemma_rounded_less(n1: int, d1: int, n2: int, d2: int)
    requires
        d1 > 0,
        d2 > 0,
        n1 >= 0,
        (n1 * 0x2_0000_0000 + 2 * d1) * d2 <= n2 * 0x2_0000_0000 * d1,
    ensures
        rounded(n1, d1) < rounded(n2, d2),
{
    let u = rounded(n1, d1);
    let v = rounded(n2, d2);
    let big: int = 0x2_0000_0000;
    assert(2 * d1 * u <= n1 * big + d1) by (nonlinear_arith)
        requires
            u == (n1 * big + d1) / (2 * d1),
            d1 > 0,
    ;
    assert(n2 * big + d2 < 2 * d2 * (v + 1)) by (nonlinear_arith)
        requires
            v == (n2 * big + d2) / (2 * d2),
            d2 > 0,
    ;
    assert(u < v) by (nonlinear_arith)
        requires
            2 * d1 * u <= n1 * big + d1,
            n2 * big + d2 < 2 * d2 * (v + 1),
            (n1 * big + 2 * d1) * d2 <= n2 * big * d1,
            d1 > 0,
            d2 > 0,
    {
        assert(2 * d1 * d2 * u <= n1 * big * d2 + d1 * d2);
        assert(n2 * big * d1 + d2 * d1 < 2 * d2 * d1 * (v + 1));
    }
}

/// A counted state below the last level moves its probability toward the
/// coded bit: lower after a zero, higher after a one.
pub proof fn lemma_counted_moves_toward_bit(t: SecondaryStateTable, level: int, k: int)
    requires
        t.wf(),
        t.built(),
        0 <= k <= level < LEVELS - 1,
    ensures
        ({
            let s = t@[counted_index(level, k)];
            &&& t@[s.next_if_zero_spec() as int].prediction_spec() < s.prediction_spec()
            &&& s.prediction_spec() < t@[s.next_if_one_spec() as int].prediction_spec()
        }),
{
    let s = t@[counted_index(level, k)];
    assert(counted_entry_ok(level, k, s));
    assert(counted_entry_ok(level + 1, k, t@[counted_index(level + 1, k)]));
    assert(counted_entry_ok(level + 1, k + 1, t@[counted_index(level + 1, k + 1)]));
    let big: int = 0x2_0000_0000;
    assert(((2 * k + 1) * big + 2 * (2 * level + 4)) * (2 * level + 2) <= (2 * k + 1) * big * (2 * level + 4))
        by (nonlinear_arith)
        requires
            0 <= k <= level < 63,
            big == 0x2_0000_0000,
    {
        assert(2 * (2 * level + 4) * (2 * level + 2) <= 2 * (2 * k + 1) * big);
    }
    lemma_rounded_less(2 * k + 1, 2 * level + 4, 2 * k + 1, 2 * level + 2);
    assert(((2 * k + 1) * big + 2 * (2 * level + 2)) * (2 * level + 4) <= (2 * k + 3) * big * (2 * level + 2))
        by (nonlinear_arith)
        requires
            0 <= k <= level < 63,
            big == 0x2_0000_0000,
    {
        assert((2 * k + 3) * (2 * level + 2) - (2 * k + 1) * (2 * level + 4) == 4 * level - 4 * k + 2);
        assert(2 * (2 * level + 2) * (2 * level + 4) <= big * (4 * level - 4 * k + 2));
    }
    lemma_rounded_less(2 * k + 1, 2 * level + 2, 2 * k + 3, 2 * level + 4);
}

/// Rounding keeps the order of probabilities.
proof fn lemma_rounded_monotone(n1: int, d1: int, n2: int, d2: int)
    requires
        d1 > 0,
        d2 > 0,
        n1 * d2 <= n2 * d1,
    ensures
        rounded(n1, d1) <= rounded(n2, d2),
{
    let big: int = 0x2_0000_0000;
    let (a1, b1, a2, b2) = (n1 * big + d1, 2 * d1, n2 * big + d2, 2 * d2);
    let u = rounded(n1, d1);
    let v = rounded(n2, d2);
    assert(a1 * b2 <= a2 * b1) by (nonlinear_arith)
        requires
            a1 == n1 * big + d1,
            a2 == n2 * big + d2,
            b1 == 2 * d1,
            b2 == 2 * d2,
            n1 * d2 <= n2 * d1,
            big > 0,
    ;
    assert(u * b1 <= a1) by (nonlinear_arith)
        requires
            u == a1 / b1,
            b1 > 0,
    ;
    assert(a2 < (v + 1) * b2) by (nonlinear_arith)
        requires
            v == a2 / b2,
            b2 > 0,
    ;
    assert(u <= v) by (nonlinear_arith)
        requires
            u * b1 <= a1,
            a2 < (v + 1) * b2,
            a1 * b2 <= a2 * b1,
            b1 > 0,
            b2 > 0,
    {
        assert(u * b1 * b2 <= a1 * b2);
        assert(a2 * b1 < (v + 1) * b2 * b1);
    }
}

/// Earlier pool entries have smaller or equal probabilities.
proof fn lemma_pool_ordered(t: SecondaryStateTable, i: int, j: int)
    requires
        t.built(),
        0 <= i <= j < POOL,
    ensures
        t@[COUNTED + i].prediction_spec() <= t@[COUNTED + j].prediction_spec(),
{
    assert(pool_entry_ok(i, t@[COUNTED + i]));
    assert(pool_entry_ok(j, t@[COUNTED + j]));
    lemma_pool_positive(i);
    lemma_pool_positive(j);
    if i < j {
        lemma_pool_increasing(i, j);
    }
    lemma_rounded_monotone(pool_num(i), pool_den(i), pool_num(j), pool_den(j));
}

/// A pool state never moves its probability against the coded bit: after a
/// zero it is not higher, after a one not lower. (Equality happens where
/// the update falls short of the next pool entry.)
pub proof fn lemma_pool_moves_toward_bit(t: SecondaryStateTable, j: int)
    requires
        t.wf(),
        t.built(),
        0 <= j < POOL,
    ensures
        ({
            let s = t@[COUNTED + j];
            &&& t@[s.next_if_zero_spec() as int].prediction_spec() <= s.prediction_spec()
            &&& s.prediction_spec() <= t@[s.next_if_one_spec() as int].prediction_spec()
        }),
{
    let s = t@[COUNTED + j];
    assert(pool_entry_ok(j, s));
    lemma_pool_positive(j);
    let (n, d) = (pool_num(j), pool_den(j));
    assert(n < d) by (nonlinear_arith)
        requires
            n == (j + 1) * (j + 1),
            d == (j + 1) * (j + 1) + (POOL - j) * (POOL - j),
            j < POOL,
    ;
    // After a zero: the snapped entry is at or before `j`.
    let (zn, zd) = (65 * n, 66 * d);
    let zi = choose|idx: int| is_insertion(zn, zd, idx) && s.next_if_zero_spec() == COUNTED + snapped(zn, zd, idx);
    assert(!pool_below(zn, zd, j)) by (nonlinear_arith)
        requires
            n > 0,
            d > 0,
            zn == 65 * n,
            zd == 66 * d,
            pool_num(j) == n,
            pool_den(j) == d,
    ;
    if zi > j {
        lemma_below_is_prefix(zn, zd, j, zi - 1);
    }
    lemma_pool_ordered(t, snapped(zn, zd, zi), j);
    // After a one: the snapped entry is at or after `j`.
    let (on, od) = (65 * n + d, 66 * d);
    let oi = choose|idx: int| is_insertion(on, od, idx) && s.next_if_one_spec() == COUNTED + snapped(on, od, idx);
    assert(pool_below(on, od, j)) by (nonlinear_arith)
        requires
            n >= 0,
            d > n,
            on == 65 * n + d,
            od == 66 * d,
            pool_num(j) == n,
            pool_den(j) == d,
    ;
    if oi <= j {
        lemma_below_is_prefix(on, od, oi, j);
    }
    lemma_pool_ordered(t, j, snapped(on, od, oi));
}

} // verus!
