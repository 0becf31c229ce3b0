//! Behavior of the LC tank and the damped LCR oscillator.

use circuit_sim::lc::{lc_default_config, lc_sim};
use circuit_sim::lcr::{lcr_default_config, lcr_sim, LcrConfig};
use circuit_sim::record::Record;

/// The largest voltage of each positive half-cycle, in emission order.
fn positive_peaks(trace: &[Record]) -> Vec<i64> {
    let mut peaks: Vec<i64> = Vec::new();
    let mut current: Option<i64> = None;
    for rec in trace {
        if rec.vc > 0 {
            current = Some(match current {
                Some(m) if m >= rec.vc => m,
                _ => rec.vc,
            });
        } else if let Some(m) = current.take() {
            peaks.push(m);
        }
    }
    if let Some(m) = current {
        peaks.push(m);
    }
    peaks
}

#[test]
fn lc_time_and_count() {
    let cfg = lc_default_config();
    let trace = lc_sim(&cfg);
    assert_eq!(trace.len(), 1001);
    assert_eq!(trace[0].t, 0);
    for k in 1..trace.len() {
        assert_eq!(trace[k].t - trace[k - 1].t, cfg.step);
    }
}

#[test]
fn lc_known_first_values() {
    // First step: Vl = -5.0, dI/dt = -50 A/s, I = -0.05 A, dVc/dt =
    // -19.739... V/s, so Vc drops to 4.980261 V; one more step reaches
    // 4.940861 V.
    let cfg = lc_default_config();
    let trace = lc_sim(&cfg);
    assert_eq!(trace[0], Record { t: 0, vc: 4_980_261 });
    assert_eq!(trace[1], Record { t: 1_000, vc: 4_940_861 });
}

#[test]
fn lc_period_matches_resonance() {
    // 2 pi sqrt(LC) with L = 0.1 H and C = 2533 uF is close to 0.1 s, a
    // 10 Hz oscillation; each measured period (the spacing of successive
    // downward zero crossings) must come out near that.
    let cfg = lc_default_config();
    let trace = lc_sim(&cfg);
    let mut crossings: Vec<i64> = Vec::new();
    for k in 1..trace.len() {
        if trace[k - 1].vc >= 0 && trace[k].vc < 0 {
            crossings.push(trace[k].t);
        }
    }
    assert!(crossings.len() >= 8);
    for k in 1..crossings.len() {
        let period = crossings[k] - crossings[k - 1];
        assert!(90_000 <= period && period <= 110_000);
    }
}

#[test]
fn lc_amplitude_drift_is_small() {
    // This update order feeds the freshly advanced current into the
    // voltage advance, so the tank's amplitude drifts little over the run.
    let cfg = lc_default_config();
    let trace = lc_sim(&cfg);
    for rec in &trace {
        assert!(rec.vc.abs() <= 5_100_000);
    }
}

#[test]
fn lcr_peaks_strictly_decay() {
    // With R = 1.5 ohm the resistor damps the loop: each positive
    // half-cycle peaks strictly below the one before it.
    let cfg = lcr_default_config();
    let trace = lcr_sim(&cfg);
    let peaks = positive_peaks(&trace);
    assert!(peaks.len() >= 8);
    for k in 1..peaks.len() {
        assert!(peaks[k] < peaks[k - 1]);
    }
}

#[test]
fn lcr_zero_resistance_stays_within_drift() {
    // With R = 0 the loop is lossless; the fully explicit update gains a
    // bounded amount of energy each cycle, so successive peaks may grow,
    // but by no more than the method's drift tolerance per period.
    let cfg = LcrConfig { vs: 5_000_000, c: 2_533, l: 100_000, r: 0, step: 1_000, duration: 1_000_000 };
    let trace = lcr_sim(&cfg);
    let peaks = positive_peaks(&trace);
    assert!(peaks.len() >= 8);
    for k in 1..peaks.len() {
        assert!(peaks[k] >= peaks[k - 1]);
        assert!(peaks[k] <= peaks[k - 1] / 10 * 13);
    }
}

#[test]
fn oscillator_runs_are_deterministic() {
    // Identical constants and step produce identical traces.
    let lc_cfg = lc_default_config();
    assert_eq!(lc_sim(&lc_cfg), lc_sim(&lc_cfg));
    let lcr_cfg = lcr_default_config();
    assert_eq!(lcr_sim(&lcr_cfg), lcr_sim(&lcr_cfg));
}
