//! Behavior of the RC charge and discharge integrators.

use circuit_sim::rc::{
    rc_charge_init, rc_charge_sim, rc_charge_step, rc_default_config, rc_discharge_sim, RcConfig,
};
use circuit_sim::record::Record;

fn extended_rc_config() -> RcConfig {
    // The shipped constants, run for five simulated seconds instead of one.
    RcConfig { vs: 5_000_000, r: 1_600_000_000, c: 100, step: 10_000, duration: 5_000_000 }
}

#[test]
fn charge_first_step_is_exact() {
    // With Vs = 5.0, R = 1.6e3, C = 100e-6, step = 0.01: the first step
    // applies the zero initial derivative, so Vc stays exactly 0, and the
    // derivative recomputed afterwards is exactly 5.0 / 0.16 = 31.25 V/s.
    let cfg = rc_default_config();
    let s0 = rc_charge_init(&cfg);
    let s1 = rc_charge_step(&cfg, &s0);
    assert_eq!(s1.vc, 0);
    assert_eq!(s1.dvdt, 31_250_000);
    let trace = rc_charge_sim(&cfg);
    assert_eq!(trace[0], Record { t: 0, vc: 0 });
}

#[test]
fn charge_time_is_monotonic() {
    // The first record is at t = 0 and every later one is exactly one step
    // after its predecessor.
    let cfg = rc_default_config();
    let trace = rc_charge_sim(&cfg);
    assert_eq!(trace[0].t, 0);
    for k in 1..trace.len() {
        assert_eq!(trace[k].t - trace[k - 1].t, cfg.step);
    }
}

#[test]
fn charge_record_count_is_exact() {
    // floor(duration / step) + 1 records: 100 steps fit in one second.
    let cfg = rc_default_config();
    assert_eq!(rc_charge_sim(&cfg).len(), 101);
}

#[test]
fn record_count_edge_cases() {
    let mut cfg = rc_default_config();
    cfg.duration = 0;
    assert_eq!(rc_charge_sim(&cfg).len(), 1);
    cfg.duration = 1_000_000;
    cfg.step = 300_000;
    assert_eq!(rc_charge_sim(&cfg).len(), 4);
    cfg.step = 2_000_000;
    assert_eq!(rc_charge_sim(&cfg).len(), 1);
}

#[test]
fn charge_known_trace_values() {
    // After the zero first step the voltage advances by 31.25 * 0.01 =
    // 0.3125 V; by the end of one second it has climbed to 4.992121 V.
    let cfg = rc_default_config();
    let trace = rc_charge_sim(&cfg);
    assert_eq!(trace[1], Record { t: 10_000, vc: 312_500 });
    assert_eq!(trace[100], Record { t: 1_000_000, vc: 4_992_121 });
}

#[test]
fn charge_rises_strictly_while_far_from_source() {
    // Over the shipped one-second run the gap to the source stays large,
    // so every step after the first makes strict progress upward.
    let cfg = rc_default_config();
    let trace = rc_charge_sim(&cfg);
    for k in 1..trace.len() - 1 {
        assert!(trace[k].vc < trace[k + 1].vc);
    }
}

#[test]
fn discharge_falls_strictly_while_far_from_zero() {
    // Over the shipped one-second run the voltage stays well above zero,
    // so every step makes strict progress downward.
    let cfg = rc_default_config();
    let trace = rc_discharge_sim(&cfg);
    for k in 0..trace.len() - 1 {
        assert!(trace[k].vc > trace[k + 1].vc);
    }
}

#[test]
fn charge_approaches_source_from_below() {
    // Over an extended run the voltage rises monotonically toward the
    // source, never exceeding it.
    let cfg = extended_rc_config();
    let trace = rc_charge_sim(&cfg);
    for k in 1..trace.len() {
        assert!(trace[k - 1].vc <= trace[k].vc);
    }
    for rec in &trace {
        assert!(0 <= rec.vc && rec.vc <= cfg.vs);
    }
    // Within 15 microvolts of the source after five time constants and more.
    assert_eq!(trace.last().unwrap().vc, 4_999_985);
}

#[test]
fn discharge_first_record_overshoots() {
    // The initial derivative is the positive Vc / RC = 31.25 V/s; its
    // negation only enters after the first advance, so the first emitted
    // sample sits 0.3125 V above the source.
    let cfg = rc_default_config();
    let trace = rc_discharge_sim(&cfg);
    assert_eq!(trace[0], Record { t: 0, vc: 5_312_500 });
    assert_eq!(trace[1], Record { t: 10_000, vc: 4_980_469 });
}

#[test]
fn discharge_approaches_zero_from_above() {
    // From the first record on the voltage falls monotonically toward
    // zero and never undershoots it.
    let cfg = extended_rc_config();
    let trace = rc_discharge_sim(&cfg);
    for k in 1..trace.len() {
        assert!(trace[k - 1].vc >= trace[k].vc);
    }
    for rec in &trace {
        assert!(rec.vc >= 0);
    }
    // Within 15 microvolts of zero after five seconds.
    assert_eq!(trace.last().unwrap().vc, 15);
}

#[test]
fn rc_runs_are_deterministic() {
    // Identical constants and step produce identical traces.
    let cfg = rc_default_config();
    assert_eq!(rc_charge_sim(&cfg), rc_charge_sim(&cfg));
    assert_eq!(rc_discharge_sim(&cfg), rc_discharge_sim(&cfg));
}
