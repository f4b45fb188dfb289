use ls_sim::error::ParamError;
use ls_sim::nco::{freq_word, LogsNCO};

fn run(n: u64, words: &[u64]) -> LogsNCO {
    let mut cur = LogsNCO::new(n).unwrap();
    let mut next = cur;
    for w in words {
        cur.step_into(&mut next, true, *w);
        cur = next;
    }
    cur
}

#[test]
fn oscillator_refuses_wide_accumulator() {
    assert_eq!(LogsNCO::new(65), Err(ParamError::PhaseTooWide));
    assert_eq!(LogsNCO::new(u64::MAX), Err(ParamError::PhaseTooWide));
    assert_eq!(LogsNCO::new(64), Ok(LogsNCO { n: 64, snd: 0, phase: 0 }));
    assert_eq!(LogsNCO::new(0), Ok(LogsNCO { n: 0, snd: 0, phase: 0 }));
}

#[test]
fn oscillator_adds_frequency_word_when_stepped() {
    let cur = LogsNCO { n: 16, snd: 0, phase: 1000 };
    let mut next = LogsNCO::new(3).unwrap();
    cur.step_into(&mut next, true, 234);
    assert_eq!(next, LogsNCO { n: 16, snd: 0, phase: 1234 });
}

#[test]
fn oscillator_holds_when_not_stepped() {
    let cur = LogsNCO { n: 16, snd: 1, phase: 40000 };
    let mut next = LogsNCO::new(3).unwrap();
    cur.step_into(&mut next, false, 234);
    assert_eq!(next, cur);
}

#[test]
fn oscillator_output_is_top_bit() {
    assert_eq!(run(16, &[0x7fff]).snd, 0);
    assert_eq!(run(16, &[0x8000]).snd, 1);
    assert_eq!(run(16, &[0xffff]).snd, 1);
    assert_eq!(run(16, &[0xffff, 1]).snd, 0);
    assert_eq!(run(1, &[1]).snd, 1);
    assert_eq!(run(1, &[1, 1]).snd, 0);
    assert_eq!(run(64, &[0x8000_0000_0000_0000]).snd, 1);
    assert_eq!(run(64, &[0x7fff_ffff_ffff_ffff]).snd, 0);
}

#[test]
fn oscillator_phase_wraps_modulo_width() {
    assert_eq!(run(16, &[0xffff, 2]).phase, 1);
    assert_eq!(run(16, &[0x1_2345]).phase, 0x2345);
    assert_eq!(run(16, &[u64::MAX]).phase, 0xffff);
    assert_eq!(run(3, &[5, 5]).phase, 2);
    assert_eq!(run(64, &[u64::MAX, 3]).phase, 2);
    assert_eq!(run(63, &[u64::MAX]).phase, 0x7fff_ffff_ffff_ffff);
}

#[test]
fn oscillator_returns_to_start_after_a_whole_turn() {
    for start in [0u64, 1, 0x1234, 0xffff] {
        let mut cur = LogsNCO::new(16).unwrap();
        let mut next = cur;
        cur.step_into(&mut next, true, start);
        cur = next;
        let before = cur;
        // 0x4000 + 0x8000 + 0x3fff + 1 = 0x10000
        for w in [0x4000u64, 0x8000, 0x3fff, 1] {
            cur.step_into(&mut next, true, w);
            cur = next;
        }
        assert_eq!(cur, before);
    }
    let mut cur = LogsNCO { n: 64, snd: 0, phase: 77 };
    let mut next = cur;
    for w in [u64::MAX, 1] {
        cur.step_into(&mut next, true, w);
        cur = next;
    }
    assert_eq!(cur.phase, 77);
}

#[test]
fn oscillator_square_wave_period() {
    // A word of 2^14 in a 16-bit accumulator gives a period of four steps.
    let mut cur = LogsNCO::new(16).unwrap();
    let mut next = cur;
    let mut bits = Vec::new();
    for _ in 0..8 {
        cur.step_into(&mut next, true, 0x4000);
        cur = next;
        bits.push(cur.snd);
    }
    assert_eq!(bits, vec![0, 1, 1, 0, 0, 1, 1, 0]);
}

#[test]
fn oscillator_of_no_bits_stays_at_zero() {
    let cur = run(0, &[1, 2, 3, u64::MAX]);
    assert_eq!(cur, LogsNCO { n: 0, snd: 0, phase: 0 });
}

#[test]
fn frequency_word_scales_up() {
    assert_eq!(freq_word(0x80, 8, 16), 0x8000);
    assert_eq!(freq_word(0xff, 8, 16), 0xff00);
    assert_eq!(freq_word(1, 8, 64), 1 << 56);
    assert_eq!(freq_word(0, 0, 64), 0);
    assert_eq!(freq_word(0, 0, 0), 0);
    assert_eq!(freq_word(5, 3, 3), 5);
}

#[test]
fn frequency_word_scales_down() {
    assert_eq!(freq_word(0xabcd, 16, 8), 0xab);
    assert_eq!(freq_word(0xffff, 16, 0), 0);
    assert_eq!(freq_word(u64::MAX, 64, 0), 0);
    assert_eq!(freq_word(u64::MAX, 64, 1), 1);
    assert_eq!(freq_word(0x0fff_ffff_ffff_ffff, 60, 4), 0xf);
}
