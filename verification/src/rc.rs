//! Resistor-capacitor charge and discharge integrators.
//!
//! Both circuits obey `RC * dVc/dt = Vs - Vc` (with `Vs = 0` for the
//! discharge), advanced by the explicit Euler rule: the voltage moves by the
//! derivative computed from the *previous* step's voltage, then the
//! derivative is recomputed from the just-updated voltage.

use vstd::prelude::*;
use crate::fixed::SCALE;
use crate::fixed::tdiv;
use crate::fixed::fx_add_spec;
use crate::fixed::fx_sub_spec;
use crate::fixed::fx_neg_spec;
use crate::fixed::fx_mul_spec;
use crate::fixed::fx_div_spec;
use crate::fixed::fx_add;
use crate::fixed::fx_sub;
use crate::fixed::fx_neg;
use crate::fixed::fx_mul;
use crate::fixed::fx_div;
use crate::fixed::lemma_tdiv_floor;
use vstd::arithmetic::div_mod::lemma_fundamental_div_mod;
use vstd::arithmetic::div_mod::lemma_mod_bound;
use crate::fixed::lemma_increment_bound;
use crate::fixed::lemma_div_identifies_quotient;
use crate::record::Record;

verus! {

/// Largest source voltage, in fixed-point volts, that the monotonicity
/// lemmas cover: one million volts, far beyond any physical configuration,
/// small enough that no intermediate quantity can saturate.
pub const MAX_SOURCE: i64 = 1_000_000_000_000;

/// Constants of one RC run, all in fixed-point units, immutable for the
/// life of the run.
#[derive(Clone, Copy, Debug)]
pub struct RcConfig {
    /// Source voltage.
    pub vs: i64,
    /// Resistance.
    pub r: i64,
    /// Capacitance.
    pub c: i64,
    /// Time step.
    pub step: i64,
    /// Total simulated time; the last record falls at or before it.
    pub duration: i64,
}

impl RcConfig {
    /// The time constant `R * C`, in fixed-point seconds.
    pub open spec fn rc(self) -> int {
        fx_mul_spec(self.r as int, self.c as int)
    }

    /// A configuration the integrators accept: a positive step, a
    /// nonnegative duration that the step counter can pass without
    /// overflow, and a positive time constant.
    pub open spec fn wf(self) -> bool {
        &&& 0 < self.step
        &&& 0 <= self.duration
        &&& self.duration + self.step <= i64::MAX as int
        &&& 0 <= self.r
        &&& 0 <= self.c
        &&& 0 < self.rc()
    }

    /// The stability regime of the explicit method: the step does not
    /// exceed the time constant, and the source voltage lies in the range
    /// the monotonicity lemmas cover.
    pub open spec fn stable(self) -> bool {
        &&& self.step <= self.rc()
        &&& 0 <= self.vs
        &&& self.vs <= MAX_SOURCE
    }
}

/// The state vector of an RC integrator: the capacitor voltage and the
/// lagged derivative that will advance the next step.
#[derive(Clone, Copy, Debug, PartialEq, Eq, Structural)]
pub struct RcState {
    /// Capacitor voltage, fixed-point volts.
    pub vc: i64,
    /// Derivative of the capacitor voltage, fixed-point volts per second.
    pub dvdt: i64,
}

/// Mathematical image of an RC state.
pub struct RcModel {
    pub vc: int,
    pub dvdt: int,
}

impl View for RcState {
    type V = RcModel;

    open spec fn view(&self) -> RcModel {
        RcModel { vc: self.vc as int, dvdt: self.dvdt as int }
    }
}

/// One charge update: advance the voltage with the lagged derivative, then
/// recompute the derivative `(Vs - Vc) / RC` from the updated voltage.
pub open spec fn rc_charge_step_spec(cfg: RcConfig, s: RcModel) -> RcModel {
    let vc = fx_add_spec(s.vc, fx_mul_spec(s.dvdt, cfg.step as int));
    let dvdt = fx_div_spec(fx_sub_spec(cfg.vs as int, vc), cfg.rc());
    RcModel { vc, dvdt }
}

/// The charge state after `k` steps: the capacitor starts empty and the
/// first step intentionally applies a zero derivative.
pub open spec fn rc_charge_model(cfg: RcConfig, k: nat) -> RcModel
    decreases k,
{
    if k == 0 {
        RcModel { vc: 0, dvdt: 0 }
    } else {
        rc_charge_step_spec(cfg, rc_charge_model(cfg, (k - 1) as nat))
    }
}

/// One discharge update: advance the voltage, then recompute the
/// derivative `-Vc / RC` from the updated voltage.
pub open spec fn rc_discharge_step_spec(cfg: RcConfig, s: RcModel) -> RcModel {
    let vc = fx_add_spec(s.vc, fx_mul_spec(s.dvdt, cfg.step as int));
    let dvdt = fx_neg_spec(fx_div_spec(vc, cfg.rc()));
    RcModel { vc, dvdt }
}

/// The discharge state after `k` steps: the capacitor starts at the source
/// voltage, and the initial derivative is the *positive* `Vc / RC` -- the
/// negation only enters after the first advance, the same one-step lag as
/// in the charge circuit, so the first emitted sample lies slightly above
/// the source voltage.
pub open spec fn rc_discharge_model(cfg: RcConfig, k: nat) -> RcModel
    decreases k,
{
    if k == 0 {
        RcModel { vc: cfg.vs as int, dvdt: fx_div_spec(cfg.vs as int, cfg.rc()) }
    } else {
        rc_discharge_step_spec(cfg, rc_discharge_model(cfg, (k - 1) as nat))
    }
}

/// The initial charge state.
pub fn rc_charge_init(cfg: &RcConfig) -> (s: RcState)
    ensures
        s@ == rc_charge_model(*cfg, 0),
{
    RcState { vc: 0, dvdt: 0 }
}

/// The initial discharge state.
pub fn rc_discharge_init(cfg: &RcConfig) -> (s: RcState)
    requires
        cfg.wf(),
    ensures
        s@ == rc_discharge_model(*cfg, 0),
{
    let rc: i64 = fx_mul(cfg.r, cfg.c);
    let dvdt = fx_div(cfg.vs, rc);
    RcState { vc: cfg.vs, dvdt }
}

/// One step of the charging capacitor.
pub fn rc_charge_step(cfg: &RcConfig, s: &RcState) -> (next: RcState)
    requires
        cfg.wf(),
    ensures
        next@ == rc_charge_step_spec(*cfg, s@),
{
    let rc: i64 = fx_mul(cfg.r, cfg.c);
    let vc = fx_add(s.vc, fx_mul(s.dvdt, cfg.step));
    let dvdt = fx_div(fx_sub(cfg.vs, vc), rc);
    RcState { vc, dvdt }
}

/// One step of the discharging capacitor.
pub fn rc_discharge_step(cfg: &RcConfig, s: &RcState) -> (next: RcState)
    requires
        cfg.wf(),
    ensures
        next@ == rc_discharge_step_spec(*cfg, s@),
{
    let rc: i64 = fx_mul(cfg.r, cfg.c);
    let vc = fx_add(s.vc, fx_mul(s.dvdt, cfg.step));
    let dvdt = fx_neg(fx_div(vc, rc));
    RcState { vc, dvdt }
}

/// Run the charging simulation.  One record is emitted per step, the time
/// taken before the advance and the voltage after it, until the elapsed
/// time passes the duration.
pub fn rc_charge_sim(cfg: &RcConfig) -> (trace: Vec<Record>)
    requires
        cfg.wf(),
    ensures
        trace@.len() == cfg.duration as int / cfg.step as int + 1,
        forall|j: int|
            0 <= j < trace@.len() ==> (#[trigger] trace@[j]).t as int == j * (cfg.step as int),
        forall|j: int|
            1 <= j < trace@.len() ==> (#[trigger] trace@[j]).t as int == trace@[j - 1].t as int
                + cfg.step as int,
        forall|j: int|
            0 <= j < trace@.len() ==> (#[trigger] trace@[j]).vc as int == rc_charge_model(
                *cfg,
                (j + 1) as nat,
            ).vc,
{
    let mut trace: Vec<Record> = Vec::new();
    let mut state = rc_charge_init(cfg);
    let mut t: i64 = 0;
    while t <= cfg.duration
        invariant
            cfg.wf(),
            state@ == rc_charge_model(*cfg, trace@.len()),
            t as int == trace@.len() * (cfg.step as int),
            0 <= t as int,
            trace@.len() >= 1 ==> (trace@.len() - 1) * (cfg.step as int) <= cfg.duration as int,
            forall|j: int|
                0 <= j < trace@.len() ==> (#[trigger] trace@[j]).t as int == j * (
                cfg.step as int),
            forall|j: int|
                0 <= j < trace@.len() ==> (#[trigger] trace@[j]).vc as int == rc_charge_model(
                    *cfg,
                    (j + 1) as nat,
                ).vc,
        decreases cfg.duration + cfg.step - t,
    {
        let ghost n = trace@.len() as int;
        state = rc_charge_step(cfg, &state);
        trace.push(Record { t, vc: state.vc });
        proof {
            assert((n + 1) * (cfg.step as int) == n * (cfg.step as int) + cfg.step as int)
                by (nonlinear_arith);
        }
        t = t + cfg.step;
    }
    proof {
        let h = cfg.step as int;
        let n = trace@.len() as int;
        if n == 0 {
            assert(0 * h == 0) by (nonlinear_arith);
        }
        assert(n >= 1);
        lemma_div_identifies_quotient(cfg.duration as int, h, n - 1);
        assert((n - 1 + 1) * h == n * h) by (nonlinear_arith);
        assert forall|j: int|
            1 <= j < trace@.len() implies (#[trigger] trace@[j]).t as int == trace@[j
            - 1].t as int + cfg.step as int by {
            assert(j * h == (j - 1) * h + h) by (nonlinear_arith);
        }
    }
    trace
}

/// Run the discharging simulation, with the same cadence as the charge.
pub fn rc_discharge_sim(cfg: &RcConfig) -> (trace: Vec<Record>)
    requires
        cfg.wf(),
    ensures
        trace@.len() == cfg.duration as int / cfg.step as int + 1,
        forall|j: int|
            0 <= j < trace@.len() ==> (#[trigger] trace@[j]).t as int == j * (cfg.step as int),
        forall|j: int|
            1 <= j < trace@.len() ==> (#[trigger] trace@[j]).t as int == trace@[j - 1].t as int
                + cfg.step as int,
        forall|j: int|
            0 <= j < trace@.len() ==> (#[trigger] trace@[j]).vc as int == rc_discharge_model(
                *cfg,
                (j + 1) as nat,
            ).vc,
{
    let mut trace: Vec<Record> = Vec::new();
    let mut state = rc_discharge_init(cfg);
    let mut t: i64 = 0;
    while t <= cfg.duration
        invariant
            cfg.wf(),
            state@ == rc_discharge_model(*cfg, trace@.len()),
            t as int == trace@.len() * (cfg.step as int),
            0 <= t as int,
            trace@.len() >= 1 ==> (trace@.len() - 1) * (cfg.step as int) <= cfg.duration as int,
            forall|j: int|
                0 <= j < trace@.len() ==> (#[trigger] trace@[j]).t as int == j * (
                cfg.step as int),
            forall|j: int|
                0 <= j < trace@.len() ==> (#[trigger] trace@[j]).vc as int == rc_discharge_model(
                    *cfg,
                    (j + 1) as nat,
                ).vc,
        decreases cfg.duration + cfg.step - t,
    {
        let ghost n = trace@.len() as int;
        state = rc_discharge_step(cfg, &state);
        trace.push(Record { t, vc: state.vc });
        proof {
            assert((n + 1) * (cfg.step as int) == n * (cfg.step as int) + cfg.step as int)
                by (nonlinear_arith);
        }
        t = t + cfg.step;
    }
    proof {
        let h = cfg.step as int;
        let n = trace@.len() as int;
        if n == 0 {
            assert(0 * h == 0) by (nonlinear_arith);
        }
        assert(n >= 1);
        lemma_div_identifies_quotient(cfg.duration as int, h, n - 1);
        assert((n - 1 + 1) * h == n * h) by (nonlinear_arith);
        assert forall|j: int|
            1 <= j < trace@.len() implies (#[trigger] trace@[j]).t as int == trace@[j
            - 1].t as int + cfg.step as int by {
            assert(j * h == (j - 1) * h + h) by (nonlinear_arith);
        }
    }
    trace
}

/// The shipped RC constants: a 5 V source, 1.6 kilo-ohm through 100  uF (a 0.16 s
/// time constant), a 10 ms step, one second of simulated time.
pub fn rc_default_config() -> (cfg: RcConfig)
    ensures
        cfg.vs as int == 5_000_000,
        cfg.r as int == 1_600_000_000,
        cfg.c as int == 100,
        cfg.step as int == 10_000,
        cfg.duration as int == 1_000_000,
        cfg.wf(),
        cfg.stable(),
{
    RcConfig { vs: 5_000_000, r: 1_600_000_000, c: 100, step: 10_000, duration: 1_000_000 }
}

/// Induction invariant of the charging run: the voltage stays within
/// `[0, vs]` and rises, and the lagged derivative is the nonnegative,
/// truncated `(vs - vc) * SCALE / rc`, which can never overshoot.
pub proof fn lemma_rc_charge_invariant(cfg: RcConfig, k: nat)
    requires
        cfg.wf(),
        cfg.stable(),
    ensures
        0 <= rc_charge_model(cfg, k).vc <= cfg.vs as int,
        0 <= rc_charge_model(cfg, k).dvdt,
        rc_charge_model(cfg, k).dvdt * cfg.rc() <= (cfg.vs as int - rc_charge_model(cfg, k).vc)
            * (SCALE as int),
        k > 0 ==> rc_charge_model(cfg, (k - 1) as nat).vc <= rc_charge_model(cfg, k).vc,
    decreases k,
{
    let s = SCALE as int;
    let rc = cfg.rc();
    let vs = cfg.vs as int;
    let h = cfg.step as int;
    if k == 0 {
        assert(0 * rc == 0) by (nonlinear_arith);
    } else {
        lemma_rc_charge_invariant(cfg, (k - 1) as nat);
        let p = rc_charge_model(cfg, (k - 1) as nat);
        lemma_increment_bound(p.dvdt, h, rc, vs - p.vc);
        let inc = tdiv(p.dvdt * h, s);
        let vc2 = p.vc + inc;
        assert(rc_charge_model(cfg, k).vc == vc2);
        let diff = vs - vc2;
        lemma_tdiv_floor(diff * s, rc);
        assert(rc_charge_model(cfg, k).dvdt == tdiv(diff * s, rc));
    }
}

/// Law: a charging capacitor's voltage approaches the source from below --
/// it never decreases and never exceeds the source voltage -- for every
/// stable configuration and every step count.
pub proof fn lemma_rc_charge_monotone(cfg: RcConfig, k: nat)
    requires
        cfg.wf(),
        cfg.stable(),
    ensures
        0 <= rc_charge_model(cfg, k).vc,
        rc_charge_model(cfg, k).vc <= rc_charge_model(cfg, (k + 1) as nat).vc,
        rc_charge_model(cfg, (k + 1) as nat).vc <= cfg.vs as int,
{
    lemma_rc_charge_invariant(cfg, (k + 1) as nat);
    lemma_rc_charge_invariant(cfg, k);
}

/// Induction invariant of the discharging run, from the first step on: the
/// voltage stays nonnegative and never increases, and the derivative is
/// the truncated `-vc * SCALE / rc`.
pub proof fn lemma_rc_discharge_invariant(cfg: RcConfig, k: nat)
    requires
        cfg.wf(),
        cfg.stable(),
        k >= 1,
    ensures
        0 <= rc_discharge_model(cfg, k).vc,
        rc_discharge_model(cfg, k).vc <= 2 * (MAX_SOURCE as int),
        rc_discharge_model(cfg, k).dvdt == -tdiv(rc_discharge_model(cfg, k).vc * (SCALE as int),
            cfg.rc()),
        k > 1 ==> rc_discharge_model(cfg, k).vc <= rc_discharge_model(cfg, (k - 1) as nat).vc,
    decreases k,
{
    let s = SCALE as int;
    let rc = cfg.rc();
    let vs = cfg.vs as int;
    let h = cfg.step as int;
    if k == 1 {
        let p = rc_discharge_model(cfg, 0);
        lemma_tdiv_floor(vs * s, rc);
        assert(p.dvdt == tdiv(vs * s, rc));
        lemma_increment_bound(p.dvdt, h, rc, vs);
        let inc = tdiv(p.dvdt * h, s);
        let vc2 = vs + inc;
        assert(rc_discharge_model(cfg, k).vc == vc2);
        lemma_tdiv_floor(vc2 * s, rc);
    } else {
        lemma_rc_discharge_invariant(cfg, (k - 1) as nat);
        let p = rc_discharge_model(cfg, (k - 1) as nat);
        let raw = tdiv(p.vc * s, rc);
        lemma_tdiv_floor(p.vc * s, rc);
        assert(p.dvdt == -raw);
        lemma_increment_bound(raw, h, rc, p.vc);
        let mag = tdiv(raw * h, s);
        assert(p.dvdt * h == -(raw * h)) by (nonlinear_arith)
            requires
                p.dvdt == -raw,
        ;
        assert(raw * h >= 0) by (nonlinear_arith)
            requires
                raw >= 0,
                h > 0,
        ;
        assert(tdiv(p.dvdt * h, s) == -mag);
        let vc2 = p.vc - mag;
        assert(rc_discharge_model(cfg, k).vc == vc2);
        lemma_tdiv_floor(vc2 * s, rc);
    }
}

/// Law: from the first emitted record on, a discharging capacitor's
/// voltage never increases and never falls below zero, for every stable
/// configuration.  (The very first record lies slightly *above* the source
/// voltage: the initial derivative is applied before its negation, the
/// documented one-step lag.)
pub proof fn lemma_rc_discharge_monotone(cfg: RcConfig, k: nat)
    requires
        cfg.wf(),
        cfg.stable(),
        k >= 1,
    ensures
        0 <= rc_discharge_model(cfg, (k + 1) as nat).vc,
        rc_discharge_model(cfg, (k + 1) as nat).vc <= rc_discharge_model(cfg, k).vc,
{
    lemma_rc_discharge_invariant(cfg, (k + 1) as nat);
}

/// Law: the charge cannot stall while far from the source.  At any step
/// `k >= 1` whose remaining gap `vs - vc` satisfies `gap * step >= 2 * rc`
/// (with the step at most one second), the next voltage is strictly
/// larger.  Together with `lemma_rc_charge_monotone` this is the
/// asymptotic approach from below: the voltage keeps rising until it is
/// within that gap of the source.
pub proof fn lemma_rc_charge_progress(cfg: RcConfig, k: nat)
    requires
        cfg.wf(),
        cfg.stable(),
        k >= 1,
        cfg.step <= SCALE,
        (cfg.vs as int - rc_charge_model(cfg, k).vc) * (cfg.step as int) >= 2 * cfg.rc(),
    ensures
        rc_charge_model(cfg, k).vc < rc_charge_model(cfg, (k + 1) as nat).vc,
{
    let s = SCALE as int;
    let rc = cfg.rc();
    let vs = cfg.vs as int;
    let h = cfg.step as int;
    lemma_rc_charge_invariant(cfg, k);
    let p = rc_charge_model(cfg, k);
    let gap = vs - p.vc;
    lemma_tdiv_floor(gap * s, rc);
    assert(p.dvdt == tdiv(gap * s, rc));
    let q1 = tdiv(gap * s, rc);
    lemma_fundamental_div_mod(gap * s, rc);
    lemma_mod_bound(gap * s, rc);
    let r1 = (gap * s) % rc;
    lemma_increment_bound(q1, h, rc, gap);
    let q2 = tdiv(q1 * h, s);
    assert(q1 * h >= 0) by (nonlinear_arith)
        requires
            q1 >= 0,
            h > 0,
    ;
    lemma_fundamental_div_mod(q1 * h, s);
    lemma_mod_bound(q1 * h, s);
    let r2 = (q1 * h) % s;
    assert(rc * (q1 * h) > (gap * s - rc) * h) by (nonlinear_arith)
        requires
            rc * q1 + r1 == gap * s,
            0 <= r1 < rc,
            h > 0,
    ;
    assert((gap * s - rc) * h >= 2 * rc * s - rc * h) by (nonlinear_arith)
        requires
            gap * h >= 2 * rc,
            s > 0,
    ;
    assert(2 * rc * s - rc * h >= rc * s) by (nonlinear_arith)
        requires
            h <= s,
            rc > 0,
    ;
    assert(q1 * h > s) by (nonlinear_arith)
        requires
            rc * (q1 * h) > rc * s,
            rc > 0,
    ;
    assert(q2 >= 1);
    assert(rc_charge_model(cfg, (k + 1) as nat).vc == p.vc + q2);
}

/// Law: the discharge cannot stall while far from zero.  At any step
/// `k >= 1` whose voltage satisfies `vc * step >= 2 * rc` (with the step
/// at most one second), the next voltage is strictly smaller.  Together
/// with `lemma_rc_discharge_monotone` this is the asymptotic approach to
/// zero from above: the voltage keeps falling until it is within that
/// bound of zero.
pub proof fn lemma_rc_discharge_progress(cfg: RcConfig, k: nat)
    requires
        cfg.wf(),
        cfg.stable(),
        k >= 1,
        cfg.step <= SCALE,
        rc_discharge_model(cfg, k).vc * (cfg.step as int) >= 2 * cfg.rc(),
    ensures
        rc_discharge_model(cfg, (k + 1) as nat).vc < rc_discharge_model(cfg, k).vc,
{
    let s = SCALE as int;
    let rc = cfg.rc();
    let h = cfg.step as int;
    lemma_rc_discharge_invariant(cfg, k);
    let p = rc_discharge_model(cfg, k);
    lemma_tdiv_floor(p.vc * s, rc);
    let q1 = tdiv(p.vc * s, rc);
    assert(p.dvdt == -q1);
    lemma_fundamental_div_mod(p.vc * s, rc);
    lemma_mod_bound(p.vc * s, rc);
    let r1 = (p.vc * s) % rc;
    lemma_increment_bound(q1, h, rc, p.vc);
    let q2 = tdiv(q1 * h, s);
    assert(q1 * h >= 0) by (nonlinear_arith)
        requires
            q1 >= 0,
            h > 0,
    ;
    assert(p.dvdt * h == -(q1 * h)) by (nonlinear_arith)
        requires
            p.dvdt == -q1,
    ;
    assert(tdiv(p.dvdt * h, s) == -q2);
    lemma_fundamental_div_mod(q1 * h, s);
    lemma_mod_bound(q1 * h, s);
    let r2 = (q1 * h) % s;
    assert(rc * (q1 * h) > (p.vc * s - rc) * h) by (nonlinear_arith)
        requires
            rc * q1 + r1 == p.vc * s,
            0 <= r1 < rc,
            h > 0,
    ;
    assert((p.vc * s - rc) * h >= 2 * rc * s - rc * h) by (nonlinear_arith)
        requires
            p.vc * h >= 2 * rc,
            s > 0,
    ;
    assert(2 * rc * s - rc * h >= rc * s) by (nonlinear_arith)
        requires
            h <= s,
            rc > 0,
    ;
    assert(q1 * h > s) by (nonlinear_arith)
        requires
            rc * (q1 * h) > rc * s,
            rc > 0,
    ;
    assert(q2 >= 1);
    assert(rc_discharge_model(cfg, (k + 1) as nat).vc == p.vc - q2);
}

/// Law: the charge trace is a function of the configuration alone -- any
/// two traces that meet `rc_charge_sim`'s contract are equal, record for
/// record, so two runs with identical constants and step produce
/// identical output.
pub proof fn lemma_rc_charge_sim_deterministic(cfg: RcConfig, t1: Seq<Record>, t2: Seq<Record>)
    requires
        t1.len() == cfg.duration as int / cfg.step as int + 1,
        forall|j: int|
            0 <= j < t1.len() ==> (#[trigger] t1[j]).t as int == j * (cfg.step as int),
        forall|j: int|
            0 <= j < t1.len() ==> (#[trigger] t1[j]).vc as int == rc_charge_model(
                cfg,
                (j + 1) as nat,
            ).vc,
        t2.len() == cfg.duration as int / cfg.step as int + 1,
        forall|j: int|
            0 <= j < t2.len() ==> (#[trigger] t2[j]).t as int == j * (cfg.step as int),
        forall|j: int|
            0 <= j < t2.len() ==> (#[trigger] t2[j]).vc as int == rc_charge_model(
                cfg,
                (j + 1) as nat,
            ).vc,
    ensures
        t1 == t2,
{
    assert forall|j: int| 0 <= j < t1.len() implies t1[j] == t2[j] by {
        assert(t1[j].t == t2[j].t);
        assert(t1[j].vc == t2[j].vc);
    }
    assert(t1 =~= t2);
}

/// Law: the discharge trace is a function of the configuration alone -- any
/// two traces that meet `rc_discharge_sim`'s contract are equal, record for
/// record, so two runs with identical constants and step produce
/// identical output.
pub proof fn lemma_rc_discharge_sim_deterministic(cfg: RcConfig, t1: Seq<Record>, t2: Seq<Record>)
    requires
        t1.len() == cfg.duration as int / cfg.step as int + 1,
        forall|j: int|
            0 <= j < t1.len() ==> (#[trigger] t1[j]).t as int == j * (cfg.step as int),
        forall|j: int|
            0 <= j < t1.len() ==> (#[trigger] t1[j]).vc as int == rc_discharge_model(
                cfg,
                (j + 1) as nat,
            ).vc,
        t2.len() == cfg.duration as int / cfg.step as int + 1,
        forall|j: int|
            0 <= j < t2.len() ==> (#[trigger] t2[j]).t as int == j * (cfg.step as int),
        forall|j: int|
            0 <= j < t2.len() ==> (#[trigger] t2[j]).vc as int == rc_discharge_model(
                cfg,
                (j + 1) as nat,
            ).vc,
    ensures
        t1 == t2,
{
    assert forall|j: int| 0 <= j < t1.len() implies t1[j] == t2[j] by {
        assert(t1[j].t == t2[j].t);
        assert(t1[j].vc == t2[j].vc);
    }
    assert(t1 =~= t2);
}

} // verus!
