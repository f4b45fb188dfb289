use ls_sim::trace::{EdgeSampler, Level, Sampled, Signal, PROGRESS_INTERVAL};

#[test]
fn sampler_starts_unknown() {
    assert_eq!(
        EdgeSampler::new(),
        EdgeSampler { clk: Level::X, snd: Level::X, changes: 0 }
    );
}

#[test]
fn sampler_samples_on_falling_edge_only() {
    let mut s = EdgeSampler::new();
    assert_eq!(s.change(Signal::Sound, Level::V1), Sampled { sample: None, progress: false });
    assert_eq!(s.change(Signal::Clock, Level::V0), Sampled { sample: None, progress: true });
    assert_eq!(s.change(Signal::Clock, Level::V1), Sampled { sample: None, progress: false });
    assert_eq!(
        s.change(Signal::Clock, Level::V0),
        Sampled { sample: Some(i16::MAX), progress: false }
    );
    assert_eq!(s.change(Signal::Sound, Level::V0), Sampled { sample: None, progress: false });
    assert_eq!(s.change(Signal::Clock, Level::V1).sample, None);
    assert_eq!(s.change(Signal::Clock, Level::V0).sample, Some(i16::MIN));
    assert_eq!(s.changes, 5);
}

#[test]
fn sampler_takes_anything_but_high_as_low() {
    for snd in [Level::V0, Level::X, Level::Z] {
        let mut s = EdgeSampler { clk: Level::V1, snd, changes: 3 };
        assert_eq!(s.change(Signal::Clock, Level::V0).sample, Some(i16::MIN));
    }
    let mut s = EdgeSampler { clk: Level::V1, snd: Level::V1, changes: 3 };
    assert_eq!(s.change(Signal::Clock, Level::V0).sample, Some(i16::MAX));
}

#[test]
fn sampler_needs_high_then_low() {
    for (from, to) in [
        (Level::X, Level::V0),
        (Level::Z, Level::V0),
        (Level::V0, Level::V0),
        (Level::V1, Level::V1),
        (Level::V1, Level::X),
        (Level::V1, Level::Z),
        (Level::V0, Level::V1),
    ] {
        let mut s = EdgeSampler { clk: from, snd: Level::V1, changes: 1 };
        assert_eq!(s.change(Signal::Clock, to), Sampled { sample: None, progress: false });
        assert_eq!(s, EdgeSampler { clk: to, snd: Level::V1, changes: 2 });
    }
}

#[test]
fn sampler_ignores_other_signals() {
    let mut s = EdgeSampler { clk: Level::V1, snd: Level::V1, changes: 0 };
    assert_eq!(s.change(Signal::Other, Level::V0), Sampled { sample: None, progress: false });
    assert_eq!(s, EdgeSampler { clk: Level::V1, snd: Level::V1, changes: 0 });
}

#[test]
fn sampler_progress_every_interval() {
    assert_eq!(PROGRESS_INTERVAL, 1024 * 1024);
    let mut s = EdgeSampler { clk: Level::V0, snd: Level::V0, changes: PROGRESS_INTERVAL - 1 };
    assert!(!s.change(Signal::Clock, Level::V1).progress);
    assert!(s.change(Signal::Clock, Level::V0).progress);
    assert!(!s.change(Signal::Clock, Level::V1).progress);
    assert_eq!(s.changes, PROGRESS_INTERVAL + 2);
}

#[test]
fn sampler_change_count_wraps() {
    let mut s = EdgeSampler { clk: Level::V0, snd: Level::V0, changes: u64::MAX };
    assert!(!s.change(Signal::Clock, Level::V1).progress);
    assert_eq!(s.changes, 0);
    assert!(s.change(Signal::Clock, Level::V0).progress);
}
