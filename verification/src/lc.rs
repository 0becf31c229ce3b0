//! Lossless inductor-capacitor tank oscillator.
//!
//! Capacitor voltage `Vc` and inductor current `I` are coupled by
//! `Vl = -Vc`, `dI/dt = Vl / L`, `dVc/dt = I / C`.  Explicit Euler on this
//! undamped loop is only marginally stable: the oscillation slowly gains
//! energy over many cycles, an accepted approximation of the method.

use vstd::prelude::*;
use crate::fixed::fx_add_spec;
use crate::fixed::fx_neg_spec;
use crate::fixed::fx_mul_spec;
use crate::fixed::fx_div_spec;
use crate::fixed::fx_add;
use crate::fixed::fx_neg;
use crate::fixed::fx_mul;
use crate::fixed::fx_div;
use crate::fixed::lemma_div_identifies_quotient;
use crate::record::Record;

verus! {

/// Constants of one LC run, all in fixed-point units.
#[derive(Clone, Copy, Debug)]
pub struct LcConfig {
    /// Source voltage the capacitor starts charged to.
    pub vs: i64,
    /// Capacitance.
    pub c: i64,
    /// Inductance.
    pub l: i64,
    /// Time step.
    pub step: i64,
    /// Total simulated time.
    pub duration: i64,
}

impl LcConfig {
    /// A configuration the integrator accepts: a positive step, a
    /// nonnegative duration the step counter can pass without overflow,
    /// and positive component values to divide by.
    pub open spec fn wf(self) -> bool {
        &&& 0 < self.step
        &&& 0 <= self.duration
        &&& self.duration + self.step <= i64::MAX as int
        &&& 0 < self.c
        &&& 0 < self.l
    }
}

/// The state vector of the tank: capacitor voltage and inductor current.
#[derive(Clone, Copy, Debug, PartialEq, Eq, Structural)]
pub struct LcState {
    /// Capacitor voltage, fixed-point volts.
    pub vc: i64,
    /// Inductor current, fixed-point amperes.
    pub i: i64,
}

/// Mathematical image of an LC state.
pub struct LcModel {
    pub vc: int,
    pub i: int,
}

impl View for LcState {
    type V = LcModel;

    open spec fn view(&self) -> LcModel {
        LcModel { vc: self.vc as int, i: self.i as int }
    }
}

/// One tank update, in circuit order: the inductor voltage opposes the
/// capacitor, the current follows the inductor voltage, and the capacitor
/// voltage follows the current.
pub open spec fn lc_step_spec(cfg: LcConfig, s: LcModel) -> LcModel {
    let vl = fx_neg_spec(s.vc);
    let didt = fx_div_spec(vl, cfg.l as int);
    let i = fx_add_spec(s.i, fx_mul_spec(didt, cfg.step as int));
    let dvdt = fx_div_spec(i, cfg.c as int);
    let vc = fx_add_spec(s.vc, fx_mul_spec(dvdt, cfg.step as int));
    LcModel { vc, i }
}

/// The tank state after `k` steps: the capacitor starts charged to the
/// source voltage with no current flowing.
pub open spec fn lc_model(cfg: LcConfig, k: nat) -> LcModel
    decreases k,
{
    if k == 0 {
        LcModel { vc: cfg.vs as int, i: 0 }
    } else {
        lc_step_spec(cfg, lc_model(cfg, (k - 1) as nat))
    }
}

/// The initial tank state.
pub fn lc_init(cfg: &LcConfig) -> (s: LcState)
    ensures
        s@ == lc_model(*cfg, 0),
{
    LcState { vc: cfg.vs, i: 0 }
}

/// One step of the tank.
pub fn lc_step(cfg: &LcConfig, s: &LcState) -> (next: LcState)
    requires
        cfg.wf(),
    ensures
        next@ == lc_step_spec(*cfg, s@),
{
    let vl = fx_neg(s.vc);
    let didt = fx_div(vl, cfg.l);
    let i = fx_add(s.i, fx_mul(didt, cfg.step));
    let dvdt = fx_div(i, cfg.c);
    let vc = fx_add(s.vc, fx_mul(dvdt, cfg.step));
    LcState { vc, i }
}

/// Run the tank simulation.  One record per step: the time before the
/// advance, the capacitor voltage after it.
pub fn lc_sim(cfg: &LcConfig) -> (trace: Vec<Record>)
    requires
        cfg.wf(),
    ensures
        trace@.len() == cfg.duration as int / cfg.step as int + 1,
        forall|j: int|
            0 <= j < trace@.len() ==> (#[trigger] trace@[j]).t as int == j * (cfg.step as int),
        forall|j: int|
            1 <= j < trace@.len() ==> (#[trigger] trace@[j]).t as int == trace@[j - 1].t as int
                + cfg.step as int,
        forall|j: int|
            0 <= j < trace@.len() ==> (#[trigger] trace@[j]).vc as int == lc_model(
                *cfg,
                (j + 1) as nat,
            ).vc,
{
    let mut trace: Vec<Record> = Vec::new();
    let mut state = lc_init(cfg);
    let mut t: i64 = 0;
    while t <= cfg.duration
        invariant
            cfg.wf(),
            state@ == lc_model(*cfg, trace@.len()),
            t as int == trace@.len() * (cfg.step as int),
            0 <= t as int,
            trace@.len() >= 1 ==> (trace@.len() - 1) * (cfg.step as int) <= cfg.duration as int,
            forall|j: int|
                0 <= j < trace@.len() ==> (#[trigger] trace@[j]).t as int == j * (
                cfg.step as int),
            forall|j: int|
                0 <= j < trace@.len() ==> (#[trigger] trace@[j]).vc as int == lc_model(
                    *cfg,
                    (j + 1) as nat,
                ).vc,
        decreases cfg.duration + cfg.step - t,
    {
        let ghost n = trace@.len() as int;
        state = lc_step(cfg, &state);
        trace.push(Record { t, vc: state.vc });
        proof {
            assert((n + 1) * (cfg.step as int) == n * (cfg.step as int) + cfg.step as int)
                by (nonlinear_arith);
        }
        t = t + cfg.step;
    }
    proof {
        let h = cfg.step as int;
        let n = trace@.len() as int;
        if n == 0 {
            assert(0 * h == 0) by (nonlinear_arith);
        }
        assert(n >= 1);
        lemma_div_identifies_quotient(cfg.duration as int, h, n - 1);
        assert((n - 1 + 1) * h == n * h) by (nonlinear_arith);
        assert forall|j: int|
            1 <= j < trace@.len() implies (#[trigger] trace@[j]).t as int == trace@[j
            - 1].t as int + cfg.step as int by {
            assert(j * h == (j - 1) * h + h) by (nonlinear_arith);
        }
    }
    trace
}

/// The shipped tank constants: 5 V initial charge, 2533  uF, 0.1 H (a
/// resonant period of about 0.1 s), a 1 ms step, one second of simulated
/// time.
pub fn lc_default_config() -> (cfg: LcConfig)
    ensures
        cfg.vs as int == 5_000_000,
        cfg.c as int == 2_533,
        cfg.l as int == 100_000,
        cfg.step as int == 1_000,
        cfg.duration as int == 1_000_000,
        cfg.wf(),
{
    LcConfig { vs: 5_000_000, c: 2_533, l: 100_000, step: 1_000, duration: 1_000_000 }
}

/// Law: the tank trace is a function of the configuration alone -- any
/// two traces that meet `lc_sim`'s contract are equal, record for
/// record, so two runs with identical constants and step produce
/// identical output.
pub proof fn lemma_lc_sim_deterministic(cfg: LcConfig, t1: Seq<Record>, t2: Seq<Record>)
    requires
        t1.len() == cfg.duration as int / cfg.step as int + 1,
        forall|j: int|
            0 <= j < t1.len() ==> (#[trigger] t1[j]).t as int == j * (cfg.step as int),
        forall|j: int|
            0 <= j < t1.len() ==> (#[trigger] t1[j]).vc as int == lc_model(
                cfg,
                (j + 1) as nat,
            ).vc,
        t2.len() == cfg.duration as int / cfg.step as int + 1,
        forall|j: int|
            0 <= j < t2.len() ==> (#[trigger] t2[j]).t as int == j * (cfg.step as int),
        forall|j: int|
            0 <= j < t2.len() ==> (#[trigger] t2[j]).vc as int == lc_model(
                cfg,
                (j + 1) as nat,
            ).vc,
    ensures
        t1 == t2,
{
    assert forall|j: int| 0 <= j < t1.len() implies t1[j] == t2[j] by {
        assert(t1[j].t == t2[j].t);
        assert(t1[j].vc == t2[j].vc);
    }
    assert(t1 =~= t2);
}

} // verus!
