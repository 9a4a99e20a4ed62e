use srx::{
    Bit, BridgedContextInfo, Byte, ByteHistory, HistoryState, HistoryStateTable, PrimaryContext,
    SecondaryStateTable, StateInfo,
};

/// The secondary state table computed independently in floating point:
/// counted Laplace states, then a pool of rescaled grid points that
/// successors snap into.
fn float_secondary_table() -> Vec<(u32, u16, u16)> {
    let levels: u64 = 64;
    let counted: u64 = levels * (levels + 1) / 2;
    let pool: u64 = 65536 - counted;
    let d = (pool + 1) as f64;
    let mut preds: Vec<f64> = (1..=pool)
        .map(|i| {
            let x = i as f64 / d;
            x * x / (x * x + (1.0 - x) * (1.0 - x))
        })
        .collect();
    preds.sort_by(f64::total_cmp);
    let snap = |x: f64| -> u16 {
        let i = match preds.binary_search_by(|v| v.total_cmp(&x)) {
            Ok(i) => i,
            Err(i) => {
                if i == 0 {
                    0
                } else if i == preds.len() {
                    i - 1
                } else if i * 2 < preds.len() {
                    i - 1
                } else {
                    i
                }
            }
        };
        (counted as usize + i) as u16
    };
    let round = |v: f64| (v * 4294967296.0).round() as u32;
    let mut table = Vec::new();
    let tri = |l: u64| l * (l + 1) / 2;
    for level in 0..levels {
        for k in 0..=level {
            let v = (2 * k + 1) as f64 / (2 * level + 2) as f64;
            if level + 1 < levels {
                table.push((round(v), (tri(level + 1) + k) as u16, (tri(level + 1) + k + 1) as u16));
            } else {
                table.push((round(v), snap(v - v / 66.0), snap(v + (1.0 - v) / 66.0)));
            }
        }
    }
    for &v in preds.iter() {
        table.push((round(v), snap(v - v / 66.0), snap(v + (1.0 - v) / 66.0)));
    }
    table
}

fn triple(s: &StateInfo) -> (u32, u16, u16) {
    (s.prediction(), s.next(Bit::Zero), s.next(Bit::One))
}

#[test]
fn test_test_and_generate_state_table() {
    let table = SecondaryStateTable::new().to_vec();
    let expected = float_secondary_table();
    assert_eq!(table.len(), 65536);
    assert_eq!(expected.len(), 65536);
    for (i, (got, want)) in table.iter().zip(expected.iter()).enumerate() {
        assert_eq!(triple(got), *want, "entry {}", i);
    }
}

#[test]
fn secondary_table_first_entries() {
    let table = SecondaryStateTable::new().to_vec();
    assert_eq!(triple(&table[0]), (0x8000_0000, 1, 2));
    assert_eq!(triple(&table[1]), (0x4000_0000, 3, 4));
    assert_eq!(triple(&table[2]), (0xC000_0000, 4, 5));
    assert_eq!(triple(&table[2080]), (1, 2080, 9081));
    assert_eq!(triple(&table[65535]), (0xFFFF_FFFF, 58534, 65535));
}

#[test]
fn predictor_moves_toward_the_coded_bit() {
    let table = SecondaryStateTable::new().to_vec();
    for (i, s) in table.iter().enumerate() {
        let p = s.prediction();
        let zero = table[s.next(Bit::Zero) as usize].prediction();
        let one = table[s.next(Bit::One) as usize].prediction();
        if i < 2080 {
            assert!(zero < p && p < one, "entry {}", i);
        } else {
            assert!(zero <= p && p <= one, "entry {}", i);
        }
    }
}

#[test]
fn primary_table_has_the_reachable_states() {
    let table = HistoryStateTable::new().to_vec();
    assert_eq!(table.len(), 256);
    // The fresh state: a first-byte match moves to the state with one match.
    assert_eq!(table[0].match_count(), 0);
    assert_eq!(table[table[0].next(srx::ByteMatched::First)].match_count(), 1);
    // Match counts saturate at 67.
    let mut s = 0usize;
    for _ in 0..200 {
        s = table[s].next(srx::ByteMatched::First);
    }
    assert_eq!(table[s].match_count(), 67);
    assert_eq!(table[s].next(srx::ByteMatched::First), s);
    // A miss always resets the match count.
    for st in table.iter().take(255) {
        assert_eq!(table[st.next(srx::ByteMatched::Miss)].match_count(), 0);
    }
}

type Ranks = (u8, u8, u8);

fn clamp(v: u8, max: u8) -> u8 {
    if v >= max {
        max
    } else {
        v
    }
}

fn dec_nz(v: u8, max: u8) -> u8 {
    clamp(if v > 1 { v - 1 } else { v }, max)
}

fn successors(r: Ranks) -> [Ranks; 4] {
    let (f, s, t) = r;
    let first = if f <= 31 {
        (clamp(f + 1, 67), dec_nz(s, 7), dec_nz(t, 3))
    } else {
        (clamp(f + 1, 67), 1, 1)
    };
    [
        first,
        (clamp(s, 67), clamp(f, 7), dec_nz(t, 3)),
        (clamp(t, 67), clamp(f, 7), dec_nz(s, 3)),
        (0, clamp(f, 7), dec_nz(s, 3)),
    ]
}

#[test]
fn test_and_generate_state_table() {
    let mut seen: Vec<Ranks> = vec![(0, 0, 0)];
    let mut i = 0;
    while i < seen.len() {
        for n in successors(seen[i]) {
            if !seen.contains(&n) {
                seen.push(n);
            }
        }
        i += 1;
    }
    seen.sort();
    assert_eq!(seen.len(), 255);
    let index = |r: Ranks| seen.iter().position(|x| *x == r).unwrap();
    let table = HistoryStateTable::new().to_vec();
    let outcomes = [
        srx::ByteMatched::First,
        srx::ByteMatched::Second,
        srx::ByteMatched::Third,
        srx::ByteMatched::Miss,
    ];
    for (i, r) in seen.iter().enumerate() {
        assert_eq!(table[i].match_count(), r.0 as usize, "state {}", i);
        let next = successors(*r);
        for (k, m) in outcomes.iter().enumerate() {
            assert_eq!(table[i].next(*m), index(next[k]), "state {} outcome {}", i, k);
        }
    }
}

#[test]
fn context_indices_follow_the_layout() {
    let fresh = HistoryState::new(0, 0, 0, 0, 0);
    let mut h = ByteHistory::new();
    for b in [0x41u8, 0x42, 0x43] {
        assert_eq!(h.matching(fresh, Byte(b)), srx::ByteMatched::Miss);
    }
    assert_eq!((h.first_byte(), h.second_byte(), h.third_byte()), (Byte(0x43), Byte(0x42), Byte(0x41)));
    let info = BridgedContextInfo::new(h, HistoryState::new(2, 0, 0, 0, 0), Byte(7), 0x12345);
    let bit = 0x40_0000 + (7 * 4 + 2) * 768;
    assert_eq!(info.first_context(), bit + 0x43);
    assert_eq!(info.second_context(), bit + 0x100 + 0x83);
    assert_eq!(info.third_context(), bit + 0x200 + 0x43);
    assert_eq!(info.literal_context(), 0x2345 * 256);
    // Match counts from 4 on share blocks two by two, and stop at 31.
    let info = BridgedContextInfo::new(h, HistoryState::new(9, 0, 0, 0, 0), Byte(7), 0);
    assert_eq!(info.first_context(), 0x40_0000 + (1024 + 2) * 768 + 0x43);
    let info = BridgedContextInfo::new(h, HistoryState::new(67, 0, 0, 0, 0), Byte(7), 0);
    assert_eq!(info.first_context(), 0x40_0000 + (1024 + 31) * 768 + 0x43);
}

#[test]
fn slot_ranks_second_and_third_matches() {
    let st = HistoryState::new(0, 1, 2, 3, 4);
    let mut h = ByteHistory::new();
    for b in [1u8, 2, 3] {
        h.matching(st, Byte(b));
    }
    // Bytes are now 3, 2, 1.
    assert_eq!(h.matching(st, Byte(1)), srx::ByteMatched::Third);
    assert_eq!(h.get_state(&srx::HistoryStateTable::new()), srx::HistoryStateTable::new().to_vec()[3]);
    assert_eq!((h.first_byte(), h.second_byte(), h.third_byte()), (Byte(1), Byte(3), Byte(2)));
    assert_eq!(h.matching(st, Byte(3)), srx::ByteMatched::Second);
    assert_eq!((h.first_byte(), h.second_byte(), h.third_byte()), (Byte(3), Byte(1), Byte(2)));
    assert_eq!(h.matching(st, Byte(3)), srx::ByteMatched::First);
    assert_eq!((h.first_byte(), h.second_byte(), h.third_byte()), (Byte(3), Byte(1), Byte(2)));
}

#[test]
fn context_hash_rolls() {
    let mut p = PrimaryContext::new();
    let s = p.get_state();
    p.matching(s, Byte(0x41));
    assert_eq!(p.hash_value(), 66);
    let s = p.get_state();
    p.matching(s, Byte(0x42));
    assert_eq!(p.hash_value(), 66 * 160 + 0x42 + 1);
    assert_eq!(p.previous_byte(), Byte(0x42));
}
