//! Series resistor-inductor-capacitor oscillator, damped by the resistor.
//!
//! One current `I` is common to all elements (Kirchhoff's current law) and
//! the voltages close the loop, `Vr + Vl + Vc = 0` (Kirchhoff's voltage
//! law).  Unlike the lossless tank, the state is primed with a consistent
//! initial derivative for `Vl`, because the resistor path would otherwise
//! turn the first-step lag into a visibly wrong transient.

use vstd::prelude::*;
use crate::fixed::fx_add_spec;
use crate::fixed::fx_sub_spec;
use crate::fixed::fx_neg_spec;
use crate::fixed::fx_mul_spec;
use crate::fixed::fx_div_spec;
use crate::fixed::fx_add;
use crate::fixed::fx_sub;
use crate::fixed::fx_neg;
use crate::fixed::fx_mul;
use crate::fixed::fx_div;
use crate::fixed::lemma_div_identifies_quotient;
use crate::record::Record;

verus! {

/// Constants of one LCR run, all in fixed-point units.
#[derive(Clone, Copy, Debug)]
pub struct LcrConfig {
    /// Source voltage the capacitor starts charged to.
    pub vs: i64,
    /// Capacitance.
    pub c: i64,
    /// Inductance.
    pub l: i64,
    /// Resistance; zero makes the loop lossless.
    pub r: i64,
    /// Time step.
    pub step: i64,
    /// Total simulated time.
    pub duration: i64,
}

impl LcrConfig {
    /// A configuration the integrator accepts: a positive step, a
    /// nonnegative duration the step counter can pass without overflow,
    /// positive component values to divide by, and a nonnegative
    /// resistance.
    pub open spec fn wf(self) -> bool {
        &&& 0 < self.step
        &&& 0 <= self.duration
        &&& self.duration + self.step <= i64::MAX as int
        &&& 0 < self.c
        &&& 0 < self.l
        &&& 0 <= self.r
    }
}

/// The state vector of the damped loop: the current, the inductor
/// voltage, the capacitor voltage, and the two derivatives that advance
/// the next step.
#[derive(Clone, Copy, Debug, PartialEq, Eq, Structural)]
pub struct LcrState {
    /// Loop current, fixed-point amperes.
    pub i: i64,
    /// Inductor voltage, fixed-point volts.
    pub vl: i64,
    /// Capacitor voltage, fixed-point volts.
    pub vc: i64,
    /// Derivative of the current, fixed-point amperes per second.
    pub di_dt: i64,
    /// Derivative of the inductor voltage, fixed-point volts per second.
    pub dvl_dt: i64,
}

/// Mathematical image of an LCR state.
pub struct LcrModel {
    pub i: int,
    pub vl: int,
    pub vc: int,
    pub di_dt: int,
    pub dvl_dt: int,
}

impl View for LcrState {
    type V = LcrModel;

    open spec fn view(&self) -> LcrModel {
        LcrModel {
            i: self.i as int,
            vl: self.vl as int,
            vc: self.vc as int,
            di_dt: self.di_dt as int,
            dvl_dt: self.dvl_dt as int,
        }
    }
}

/// One damped-loop update, in circuit order: advance the current, read the
/// resistor voltage off it, advance the inductor voltage, recompute the
/// current's derivative, close the voltage loop for the capacitor, and
/// recompute the inductor voltage's derivative.
pub open spec fn lcr_step_spec(cfg: LcrConfig, s: LcrModel) -> LcrModel {
    let i = fx_add_spec(s.i, fx_mul_spec(s.di_dt, cfg.step as int));
    let vr = fx_mul_spec(i, cfg.r as int);
    let vl = fx_add_spec(s.vl, fx_mul_spec(s.dvl_dt, cfg.step as int));
    let di_dt = fx_div_spec(vl, cfg.l as int);
    let vc = fx_sub_spec(fx_neg_spec(vr), vl);
    let dvl_dt = fx_sub_spec(
        fx_neg_spec(fx_div_spec(i, cfg.c as int)),
        fx_mul_spec(di_dt, cfg.r as int),
    );
    LcrModel { i, vl, vc, di_dt, dvl_dt }
}

/// The damped-loop state after `k` steps.  At the start no current flows,
/// the capacitor holds the source voltage, the inductor opposes it, and
/// the derivatives take their analytically consistent initial values.
pub open spec fn lcr_model(cfg: LcrConfig, k: nat) -> LcrModel
    decreases k,
{
    if k == 0 {
        LcrModel {
            i: 0,
            vl: fx_neg_spec(cfg.vs as int),
            vc: cfg.vs as int,
            di_dt: fx_div_spec(fx_neg_spec(cfg.vs as int), cfg.l as int),
            dvl_dt: 0,
        }
    } else {
        lcr_step_spec(cfg, lcr_model(cfg, (k - 1) as nat))
    }
}

/// The initial damped-loop state.
pub fn lcr_init(cfg: &LcrConfig) -> (s: LcrState)
    requires
        cfg.wf(),
    ensures
        s@ == lcr_model(*cfg, 0),
{
    let vl = fx_neg(cfg.vs);
    let di_dt = fx_div(vl, cfg.l);
    LcrState { i: 0, vl, vc: cfg.vs, di_dt, dvl_dt: 0 }
}

/// One step of the damped loop.
pub fn lcr_step(cfg: &LcrConfig, s: &LcrState) -> (next: LcrState)
    requires
        cfg.wf(),
    ensures
        next@ == lcr_step_spec(*cfg, s@),
{
    let i = fx_add(s.i, fx_mul(s.di_dt, cfg.step));
    let vr = fx_mul(i, cfg.r);
    let vl = fx_add(s.vl, fx_mul(s.dvl_dt, cfg.step));
    let di_dt = fx_div(vl, cfg.l);
    let vc = fx_sub(fx_neg(vr), vl);
    let dvl_dt = fx_sub(fx_neg(fx_div(i, cfg.c)), fx_mul(di_dt, cfg.r));
    LcrState { i, vl, vc, di_dt, dvl_dt }
}

/// Run the damped-loop simulation.  One record per step: the time before
/// the advance, the capacitor voltage after it.
pub fn lcr_sim(cfg: &LcrConfig) -> (trace: Vec<Record>)
    requires
        cfg.wf(),
    ensures
        trace@.len() == cfg.duration as int / cfg.step as int + 1,
        forall|j: int|
            0 <= j < trace@.len() ==> (#[trigger] trace@[j]).t as int == j * (cfg.step as int),
        forall|j: int|
            1 <= j < trace@.len() ==> (#[trigger] trace@[j]).t as int == trace@[j - 1].t as int
                + cfg.step as int,
        forall|j: int|
            0 <= j < trace@.len() ==> (#[trigger] trace@[j]).vc as int == lcr_model(
                *cfg,
                (j + 1) as nat,
            ).vc,
{
    let mut trace: Vec<Record> = Vec::new();
    let mut state = lcr_init(cfg);
    let mut t: i64 = 0;
    while t <= cfg.duration
        invariant
            cfg.wf(),
            state@ == lcr_model(*cfg, trace@.len()),
            t as int == trace@.len() * (cfg.step as int),
            0 <= t as int,
            trace@.len() >= 1 ==> (trace@.len() - 1) * (cfg.step as int) <= cfg.duration as int,
            forall|j: int|
                0 <= j < trace@.len() ==> (#[trigger] trace@[j]).t as int == j * (
                cfg.step as int),
            forall|j: int|
                0 <= j < trace@.len() ==> (#[trigger] trace@[j]).vc as int == lcr_model(
                    *cfg,
                    (j + 1) as nat,
                ).vc,
        decreases cfg.duration + cfg.step - t,
    {
        let ghost n = trace@.len() as int;
        state = lcr_step(cfg, &state);
        trace.push(Record { t, vc: state.vc });
        proof {
            assert((n + 1) * (cfg.step as int) == n * (cfg.step as int) + cfg.step as int)
                by (nonlinear_arith);
        }
        t = t + cfg.step;
    }
    proof {
        let h = cfg.step as int;
        let n = trace@.len() as int;
        if n == 0 {
            assert(0 * h == 0) by (nonlinear_arith);
        }
        assert(n >= 1);
        lemma_div_identifies_quotient(cfg.duration as int, h, n - 1);
        assert((n - 1 + 1) * h == n * h) by (nonlinear_arith);
        assert forall|j: int|
            1 <= j < trace@.len() implies (#[trigger] trace@[j]).t as int == trace@[j
            - 1].t as int + cfg.step as int by {
            assert(j * h == (j - 1) * h + h) by (nonlinear_arith);
        }
    }
    trace
}

/// The shipped damped-loop constants: 5 V initial charge, 2533  uF, 0.1 H,
/// 1.5  ohm, a 1 ms step, one second of simulated time.
pub fn lcr_default_config() -> (cfg: LcrConfig)
    ensures
        cfg.vs as int == 5_000_000,
        cfg.c as int == 2_533,
        cfg.l as int == 100_000,
        cfg.r as int == 1_500_000,
        cfg.step as int == 1_000,
        cfg.duration as int == 1_000_000,
        cfg.wf(),
{
    LcrConfig {
        vs: 5_000_000,
        c: 2_533,
        l: 100_000,
        r: 1_500_000,
        step: 1_000,
        duration: 1_000_000,
    }
}

/// Law: the damped-loop trace is a function of the configuration alone -- any
/// two traces that meet `lcr_sim`'s contract are equal, record for
/// record, so two runs with identical constants and step produce
/// identical output.
pub proof fn lemma_lcr_sim_deterministic(cfg: LcrConfig, t1: Seq<Record>, t2: Seq<Record>)
    requires
        t1.len() == cfg.duration as int / cfg.step as int + 1,
        forall|j: int|
            0 <= j < t1.len() ==> (#[trigger] t1[j]).t as int == j * (cfg.step as int),
        forall|j: int|
            0 <= j < t1.len() ==> (#[trigger] t1[j]).vc as int == lcr_model(
                cfg,
                (j + 1) as nat,
            ).vc,
        t2.len() == cfg.duration as int / cfg.step as int + 1,
        forall|j: int|
            0 <= j < t2.len() ==> (#[trigger] t2[j]).t as int == j * (cfg.step as int),
        forall|j: int|
            0 <= j < t2.len() ==> (#[trigger] t2[j]).vc as int == lcr_model(
                cfg,
                (j + 1) as nat,
            ).vc,
    ensures
        t1 == t2,
{
    assert forall|j: int| 0 <= j < t1.len() implies t1[j] == t2[j] by {
        assert(t1[j].t == t2[j].t);
        assert(t1[j].vc == t2[j].vc);
    }
    assert(t1 =~= t2);
}

} // verus!
