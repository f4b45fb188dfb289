use ls_sim::divider::LogsDivider;
use ls_sim::error::ParamError;

fn pulses_in(n: u64, warmup: u64, window: u64) -> u64 {
    let mut cur = LogsDivider::new(n).unwrap();
    let mut next = cur;
    for _ in 0..warmup {
        cur.step_into(&mut next);
        cur = next;
    }
    let mut count = 0;
    for _ in 0..window {
        cur.step_into(&mut next);
        cur = next;
        if cur.mod_n {
            count += 1;
        }
    }
    count
}

#[test]
fn divider_refuses_zero_modulus() {
    assert_eq!(LogsDivider::new(0), Err(ParamError::ZeroDivider));
}

#[test]
fn divider_starts_at_reset() {
    let d = LogsDivider::new(7).unwrap();
    assert_eq!(d.n, 7);
    assert_eq!(d.counter, 0);
    assert!(!d.mod_n);
}

#[test]
fn divider_pulses_once_per_period_from_any_start() {
    for n in 1..=9u64 {
        for warmup in 0..20u64 {
            assert_eq!(pulses_in(n, warmup, n), 1, "n={} warmup={}", n, warmup);
        }
    }
}

#[test]
fn divider_pulse_count_over_many_periods() {
    assert_eq!(pulses_in(5, 0, 50), 10);
    assert_eq!(pulses_in(5, 3, 52), 11);
    assert_eq!(pulses_in(1, 0, 13), 13);
}

#[test]
fn divider_by_three_sequence() {
    let mut cur = LogsDivider::new(3).unwrap();
    let mut next = cur;
    let mut seen = Vec::new();
    for _ in 0..7 {
        cur.step_into(&mut next);
        cur = next;
        seen.push((cur.counter, cur.mod_n));
    }
    assert_eq!(
        seen,
        vec![(1, false), (2, false), (0, true), (1, false), (2, false), (0, true), (1, false)]
    );
}

#[test]
fn divider_by_one_pulses_every_edge() {
    let mut cur = LogsDivider::new(1).unwrap();
    let mut next = cur;
    for _ in 0..5 {
        cur.step_into(&mut next);
        cur = next;
        assert!(cur.mod_n);
        assert_eq!(cur.counter, 0);
    }
}

#[test]
fn divider_step_overwrites_whatever_next_held() {
    let cur = LogsDivider { n: 4, mod_n: false, counter: 3 };
    let mut next = LogsDivider { n: 99, mod_n: false, counter: 42 };
    cur.step_into(&mut next);
    assert_eq!(next, LogsDivider { n: 4, mod_n: true, counter: 0 });
}
