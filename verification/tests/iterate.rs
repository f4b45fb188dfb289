use ls_sim::error::ParamError;
use ls_sim::iterate::{LogsIterateMap, MAX_FRAC};

/// Runs one whole update from a freshly set up multiplier and returns the
/// new iterate with the number of enabled edges it took.
fn update(frac: u64, x: u64, r: u64) -> (u64, u64) {
    let mut cur = LogsIterateMap::with_seed(frac, x).unwrap();
    let mut next = cur;
    let mut edges = 0;
    while !cur.next_ready {
        cur.step_into(&mut next, r);
        cur = next;
        edges += 1;
        assert!(edges <= 2 * frac + 2);
    }
    (cur.x, edges)
}

#[test]
fn iterator_refuses_wide_fraction() {
    assert_eq!(LogsIterateMap::new(MAX_FRAC + 1), Err(ParamError::FracTooWide));
    assert_eq!(LogsIterateMap::new(64), Err(ParamError::FracTooWide));
    assert_eq!(LogsIterateMap::with_seed(u64::MAX, 1), Err(ParamError::FracTooWide));
    assert!(LogsIterateMap::new(MAX_FRAC).is_ok());
    assert!(LogsIterateMap::new(0).is_ok());
}

#[test]
fn iterator_reset_state() {
    let it = LogsIterateMap::new(8).unwrap();
    assert_eq!(
        it,
        LogsIterateMap {
            frac: 8,
            x: 0,
            next_ready: false,
            counter: 0,
            multiplicand: 256,
            multiplier: 0,
            mult_accum: 0,
        }
    );
}

#[test]
fn iterator_seed_keeps_fraction_bits_only() {
    let it = LogsIterateMap::with_seed(8, 0x1234).unwrap();
    assert_eq!(it.x, 0x34);
    assert_eq!(it.multiplicand, 256 - 0x34);
    assert_eq!(it.multiplier, 0x34);
    let it = LogsIterateMap::with_seed(0, 77).unwrap();
    assert_eq!(it.x, 0);
}

#[test]
fn iterator_update_matches_formula() {
    // frac = 8, so one is 256 and the rate four is 1024.
    assert_eq!(update(8, 64, 1024), (192, 18));
    assert_eq!(update(8, 192, 1024), (192, 18));
    assert_eq!(update(8, 100, 1024), (240, 18));
    assert_eq!(update(8, 240, 1024), (60, 18));
    assert_eq!(update(8, 60, 1024), (180, 18));
    assert_eq!(update(8, 100, 896), (210, 18));
    assert_eq!(update(8, 0, 1024), (0, 18));
}

#[test]
fn iterator_result_of_one_is_held_below_one() {
    // 4 * 0.5 * 0.5 is one, which the iterate cannot hold.
    assert_eq!(update(8, 128, 1024), (255, 18));
    assert_eq!(update(2, 2, 16), (3, 6));
}

#[test]
fn iterator_rate_above_four_counts_as_four() {
    assert_eq!(update(8, 64, 1025), (192, 18));
    assert_eq!(update(8, 64, u64::MAX), (192, 18));
    assert_eq!(update(8, 100, u64::MAX), (240, 18));
}

#[test]
fn iterator_update_agrees_with_wide_arithmetic() {
    for frac in [1u64, 3, 8, 16, 31, 47, 60] {
        let one: u128 = 1 << frac;
        let mut x: u64 = ((one / 3) as u64) | 1;
        x %= one as u64;
        for r in [0u64, 1, (one as u64) * 3, (one as u64) * 4 - 1, (one as u64) * 4] {
            for _ in 0..6 {
                let square = (one - x as u128) * (x as u128) / one;
                let grown = (r as u128) * square / one;
                let expected = if grown < one { grown } else { one - 1 } as u64;
                let (got, edges) = update(frac, x, r);
                assert_eq!(got, expected, "frac={} x={} r={}", frac, x, r);
                assert_eq!(edges, 2 * frac + 2);
                x = (x.wrapping_mul(6364136223846793005).wrapping_add(1442695040888963407))
                    % (one as u64);
            }
        }
    }
}

#[test]
fn iterator_stays_in_range_over_many_edges() {
    for frac in [0u64, 1, 5, 12, 60] {
        let one: u128 = 1 << frac;
        let mut cur = LogsIterateMap::with_seed(frac, 0x5555_5555_5555_5555).unwrap();
        let mut next = cur;
        let mut r: u64 = 0x9e37_79b9_7f4a_7c15;
        for _ in 0..5000 {
            cur.step_into(&mut next, r);
            cur = next;
            assert!((cur.x as u128) < one);
            assert!(cur.counter as u64 <= 2 * frac + 1);
            assert!(cur.mult_accum <= cur.multiplicand);
            r = r.rotate_left(7) ^ 0x1234_5678;
        }
    }
}

#[test]
fn iterator_holds_iterate_until_update_is_ready() {
    let mut cur = LogsIterateMap::with_seed(8, 100).unwrap();
    let mut next = cur;
    for _ in 0..17 {
        cur.step_into(&mut next, 1024);
        cur = next;
        assert_eq!(cur.x, 100);
        assert!(!cur.next_ready);
    }
    cur.step_into(&mut next, 1024);
    cur = next;
    assert_eq!(cur.x, 240);
    assert!(cur.next_ready);
}

#[test]
fn iterator_restarts_when_ready_is_consumed() {
    let mut cur = LogsIterateMap::with_seed(8, 100).unwrap();
    let mut next = cur;
    for _ in 0..18 {
        cur.step_into(&mut next, 1024);
        cur = next;
    }
    assert!(cur.next_ready);
    assert_eq!(cur.counter, 17);
    cur.step_into(&mut next, 1024);
    assert_eq!(next, LogsIterateMap::with_seed(8, 240).unwrap());
}

#[test]
fn iterator_single_steps() {
    let cur = LogsIterateMap {
        frac: 4,
        x: 5,
        next_ready: false,
        counter: 1,
        multiplicand: 11,
        multiplier: 3,
        mult_accum: 6,
    };
    let mut next = cur;
    cur.step_into(&mut next, 64);
    assert_eq!(
        next,
        LogsIterateMap { counter: 2, multiplier: 1, mult_accum: 8, ..cur }
    );
    let even = LogsIterateMap { multiplier: 2, ..cur };
    even.step_into(&mut next, 64);
    assert_eq!(
        next,
        LogsIterateMap { counter: 2, multiplier: 1, mult_accum: 3, ..cur }
    );
    let load = LogsIterateMap { counter: 4, ..cur };
    load.step_into(&mut next, 50);
    assert_eq!(
        next,
        LogsIterateMap { counter: 5, multiplicand: 50, multiplier: 6, mult_accum: 0, ..cur }
    );
    load.step_into(&mut next, 65);
    assert_eq!(next.multiplicand, 64);
    let last = LogsIterateMap { counter: 9, mult_accum: 9, ..cur };
    last.step_into(&mut next, 64);
    assert_eq!(next, LogsIterateMap { x: 9, next_ready: true, ..last });
}

#[test]
fn iterator_hold_changes_nothing() {
    let cur = LogsIterateMap {
        frac: 4,
        x: 5,
        next_ready: true,
        counter: 9,
        multiplicand: 11,
        multiplier: 3,
        mult_accum: 6,
    };
    let mut next = LogsIterateMap::new(7).unwrap();
    cur.hold_into(&mut next);
    assert_eq!(next, cur);
}
