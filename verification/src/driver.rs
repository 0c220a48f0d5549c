//! The trial driver: repeated sequential trials with timing and ETA
//! bookkeeping.
//!
//! Each trial draws a fresh conductance vector, assembles the augmented
//! system into the trial-owned matrix, eliminates and back-substitutes,
//! evaluates both residual norms, pushes the trial duration into a
//! bounded FIFO window, and projects the remaining run time from the
//! window mean.  A singular draw is a per-trial failure: it is recorded
//! and the run continues.  Trials never overlap; only the elimination
//! inside one trial is partitioned across workers.
//!
//! Reading the clock is a trusted call that yields plain milliseconds;
//! every decision made from them — eviction, the mean, the projection,
//! the hours/minutes/seconds split — is verified exactly.  Printing and
//! file export stay outside the library: each trial hands back a record
//! with everything an exporter consumes.

use vstd::prelude::*;

verus! {

use crate::dists::Distribution;
use crate::elimination::{gauss_elimination, SingularMatrixError};
use crate::isosurface::compute_isosurface;
use crate::lattice::{n_res, n_unk, spec_n_res, spec_n_unk, MAX_SIDE};
use crate::matrix::AugMatrix;
use vstd::arithmetic::div_mod::{
    lemma_div_nonincreasing, lemma_fundamental_div_mod, lemma_hoist_over_denominator,
    lemma_mod_bound,
};

use crate::assembly::{assembled, build_system, gview};
use crate::elimination::{back_sub_state, forward_spec};
use crate::isosurface::{iso_surface, threshold_flags_spec};
use crate::residual::{compute_error, norm2_spec, norm_inf_spec, Norm};
use crate::scalar::Scalar;

/// What each successful trial hands to the export collaborator.
#[derive(Clone, Copy, Debug, PartialEq, Eq, Structural)]
pub enum ExportMode {
    NoExport,
    ExportArrays,
    ExportIsoSurface,
    ExportArraysAndIsoSurface,
}

impl ExportMode {
    /// The modes that export the solution and conductance arrays.
    pub fn wants_arrays(&self) -> (r: bool)
        ensures
            r == (*self == ExportMode::ExportArrays
                || *self == ExportMode::ExportArraysAndIsoSurface),
    {
        match self {
            ExportMode::ExportArrays => true,
            ExportMode::ExportArraysAndIsoSurface => true,
            _ => false,
        }
    }

    /// The modes that export the extracted isosurface.
    pub fn wants_isosurface(&self) -> (r: bool)
        ensures
            r == (*self == ExportMode::ExportIsoSurface
                || *self == ExportMode::ExportArraysAndIsoSurface),
    {
        match self {
            ExportMode::ExportIsoSurface => true,
            ExportMode::ExportArraysAndIsoSurface => true,
            _ => false,
        }
    }
}

#[verifier::external_type_specification]
#[verifier::external_body]
pub struct ExInstant(std::time::Instant);

/// Relies on Instant::now: an opaque monotonic timestamp.
#[verifier::external_body]
fn instant_now() -> std::time::Instant {
    std::time::Instant::now()
}

/// Relies on Instant::elapsed: milliseconds since the timestamp,
/// truncated to 64 bits.  Nothing is promised of the value: time is not
/// a function of the arguments.
#[verifier::external_body]
fn elapsed_millis(since: &std::time::Instant) -> u64 {
    since.elapsed().as_millis() as u64
}

/// Capacity of the trial-duration window the ETA projection reads.
pub const ETA_WINDOW_CAP: usize = 100;

/// The sum of a sequence of millisecond durations.
pub open spec fn sum_millis(s: Seq<u64>) -> int
    decreases s.len(),
{
    if s.len() == 0 {
        0
    } else {
        sum_millis(s.drop_last()) + s.last()
    }
}

/// One append to the bounded window: the oldest entry leaves first
/// when the window is full.
pub open spec fn window_push_spec(s: Seq<u64>, d: u64) -> Seq<u64> {
    if s.len() < ETA_WINDOW_CAP {
        s.push(d)
    } else {
        s.subrange(1, s.len() as int).push(d)
    }
}

/// The bounded FIFO of recent trial durations: at most `ETA_WINDOW_CAP`
/// entries, oldest evicted first.
pub struct TimingWindow {
    pub times: Vec<u64>,
}

impl TimingWindow {
    /// The window never exceeds its capacity.
    pub open spec fn wf(self) -> bool {
        self.times.len() <= ETA_WINDOW_CAP
    }

    pub fn new() -> (w: TimingWindow)
        ensures
            w.wf(),
            w.times@ == Seq::<u64>::empty(),
    {
        TimingWindow { times: Vec::new() }
    }

    /// Append one duration; when the window is full the oldest entry
    /// leaves first.
    pub fn push(&mut self, d: u64)
        requires
            old(self).wf(),
        ensures
            final(self).wf(),
            final(self).times.len() >= 1,
            final(self).times@ == window_push_spec(old(self).times@, d),
    {
        if self.times.len() >= ETA_WINDOW_CAP {
            self.times.remove(0);
        }
        self.times.push(d);
    }
}

/// The window mean times the remaining trial count, in whole seconds.
pub open spec fn eta_secs_spec(s: Seq<u64>, remaining: int) -> int {
    sum_millis(s) * remaining / (s.len() as int * 1000)
}

/// The window mean times the remaining trial count, in whole seconds:
/// the projection of the time the rest of the run needs, truncated only
/// after the scaling by the remaining count.
pub fn eta_seconds(w: &TimingWindow, remaining: usize) -> (r: u128)
    requires
        w.wf(),
        w.times.len() >= 1,
    ensures
        r as int == eta_secs_spec(w.times@, remaining as int),
{
    let n = w.times.len();
    let mut acc: u128 = 0;
    let mut i: usize = 0;
    while i < n
        invariant
            i <= n,
            n == w.times.len(),
            acc == sum_millis(w.times@.take(i as int)),
            acc <= i * 0xffff_ffff_ffff_ffffu128,
        decreases n - i,
    {
        proof {
            assert(w.times@.take(i as int + 1).drop_last() =~= w.times@.take(i as int));
            assert(acc + w.times@[i as int] <= (i + 1) * 0xffff_ffff_ffff_ffffu128)
                by (nonlinear_arith)
                requires
                    acc <= i * 0xffff_ffff_ffff_ffffu128
                        && w.times@[i as int] <= 0xffff_ffff_ffff_ffffu128;
        }
        acc = acc + w.times[i] as u128;
        i = i + 1;
    }
    proof {
        assert(w.times@.take(n as int) =~= w.times@);
        assert(acc <= (n as u128) * 0xffff_ffff_ffff_ffffu128) by (nonlinear_arith)
            requires acc <= i * 0xffff_ffff_ffff_ffffu128 && i == n;
    }
    let d = (n as u128) * 1000;
    proof {
        assert(1000 <= d <= 100000) by (nonlinear_arith)
            requires d == (n as u128) * 1000 && 1 <= n <= 100;
    }
    let q = acc / d;
    let rem = acc % d;
    proof {
        lemma_fundamental_div_mod(acc as int, d as int);
        lemma_mod_bound(acc as int, d as int);
        assert(acc == q * d + rem && rem < d);
        assert(q <= acc / 1000 && acc / 1000 <= 0x80_0000_0000_0000_0000u128)
            by (nonlinear_arith)
            requires
                q == acc / d && d == (n as u128) * 1000 && 1 <= n <= 100
                    && acc <= (n as u128) * 0xffff_ffff_ffff_ffffu128;
        assert(0 <= (q as int) && 0 <= (remaining as int));
        assert((q as int) * (remaining as int) <= 170141183460469231722463931679029329920)
            by (nonlinear_arith)
            requires
                0 <= (q as int) && (q as int) <= 9223372036854775808
                    && 0 <= (remaining as int) && (remaining as int) <= 18446744073709551615;
        assert((rem as int) * (remaining as int) <= 1844674407370955161500000)
            by (nonlinear_arith)
            requires
                0 <= (rem as int) && (rem as int) < (d as int) && (d as int) <= 100000
                    && 0 <= (remaining as int) <= 0xffff_ffff_ffff_ffff;
        assert(0 <= (rem as int) * (remaining as int)) by (nonlinear_arith)
            requires 0 <= (rem as int) && 0 <= (remaining as int);
        lemma_div_nonincreasing((rem as int) * (remaining as int), d as int);
        let p1 = (q as int) * (remaining as int);
        let p2 = (rem as int) * (remaining as int);
        let p3 = p2 / (d as int);
        assert(p1 <= 170141183460469231722463931679029329920);
        assert(p3 <= p2 && p2 <= 1844674407370955161500000);
        assert(p1 + p3 < 0x1_0000_0000_0000_0000_0000_0000_0000_0000);
    }
    let r = q * (remaining as u128) + rem * (remaining as u128) / d;
    proof {
        let ai = acc as int;
        let ri = remaining as int;
        let di = d as int;
        let qi = q as int;
        let remi = rem as int;
        lemma_hoist_over_denominator(remi * ri, qi * ri, d as nat);
        assert(remi * ri / di + qi * ri == (remi * ri + qi * ri * di) / di);
        assert(ai * ri == remi * ri + qi * ri * di) by (nonlinear_arith)
            requires ai == qi * di + remi;
        assert(ai * ri / di == qi * ri + remi * ri / di);
        assert(d as int == (w.times@.len() as int) * 1000);
    }
    r
}

/// A projected duration split for display: whole hours, and the minutes
/// and seconds left over.
pub struct EtaParts {
    pub hours: u128,
    pub minutes: u64,
    pub seconds: u64,
}

/// Split a duration in whole seconds into hours, minutes and seconds.
pub fn hms_parts(total_secs: u128) -> (r: EtaParts)
    ensures
        r.hours == total_secs / 3600,
        r.minutes == (total_secs % 3600) / 60,
        r.seconds == total_secs % 60,
        r.minutes < 60,
        r.seconds < 60,
{
    let hours = total_secs / 3600;
    let minutes = ((total_secs % 3600) / 60) as u64;
    let seconds = (total_secs % 60) as u64;
    EtaParts { hours, minutes, seconds }
}

/// An element-for-element copy of a scalar vector, snapshotting a
/// trial's output before the next trial overwrites it.
fn copy_scalars(v: &Vec<Scalar>) -> (r: Vec<Scalar>)
    ensures
        r@ == v@,
{
    let mut r: Vec<Scalar> = Vec::new();
    let mut i: usize = 0;
    while i < v.len()
        invariant
            i <= v.len(),
            r@ == v@.take(i as int),
        decreases v.len() - i,
    {
        let x = v[i];
        r.push(x);
        proof {
            assert(r@ =~= v@.take(i as int + 1));
        }
        i = i + 1;
    }
    proof {
        assert(v@.take(v.len() as int) =~= v@);
    }
    r
}

/// Overwrite every slot of the conductance vector with a fresh sample:
/// the per-trial draw, one conductance per resistor — each slot holds
/// its family's inverse-CDF model of some unit draw.
pub fn fill_resistances<D: Distribution>(
    dist: &D,
    rng: &mut rand::rngs::StdRng,
    resist: &mut Vec<Scalar>,
)
    ensures
        final(resist).len() == old(resist).len(),
        forall|i: int|
            0 <= i < final(resist).len()
                ==> crate::dists::sampled_from(*dist, #[trigger] final(resist)@[i]),
{
    let n = resist.len();
    let mut i: usize = 0;
    while i < n
        invariant
            i <= n,
            resist.len() == n,
            forall|r: int|
                0 <= r < i ==> crate::dists::sampled_from(*dist, #[trigger] resist@[r]),
        decreases n - i,
    {
        let v = dist.sample(rng);
        resist.set(i, v);
        proof {
            assert(crate::dists::sampled_from(*dist, resist@[i as int]));
        }
        i = i + 1;
    }
}

/// Everything one trial reports: the phase durations, the residual
/// norms, the success or failure of the elimination, the projected time
/// left, and the data an exporter consumes.
pub struct TrialRecord {
    /// Which trial this was, counting from zero.
    pub iter: usize,
    pub duration_fill_millis: u64,
    pub duration_build_millis: u64,
    pub duration_gauss_millis: u64,
    /// Sum of the three phases, saturating at the type's limit.
    pub duration_millis: u64,
    pub err2: Scalar,
    pub errinf: Scalar,
    /// `Err` names the column where no nonzero pivot existed.
    pub outcome: Result<(), SingularMatrixError>,
    pub eta: EtaParts,
    /// The solved potentials, snapshotted for export.
    pub solution: Vec<Scalar>,
    /// The sampled conductances, snapshotted for export.
    pub conductances: Vec<Scalar>,
    /// The extracted boundary, when the mode asks for it and the trial
    /// succeeded.
    pub surface: Option<Vec<(usize, usize)>>,
}

/// The sequential trial loop's state: configuration fixed for the run,
/// the trial-owned buffers, and the bookkeeping window.
pub struct TrialDriver<D: Distribution> {
    pub dist: D,
    pub l: usize,
    pub workers: usize,
    pub n_tries: usize,
    pub export_mode: ExportMode,
    pub isosurface_value: Scalar,
    pub completed: usize,
    pub window: TimingWindow,
    pub resist: Vec<Scalar>,
    pub x: Vec<Scalar>,
    pub matrix: AugMatrix,
}

impl<D: Distribution> TrialDriver<D> {
    /// The driver's invariant: configuration in range, buffers sized by
    /// the lattice, window within capacity.
    pub open spec fn wf(self) -> bool {
        &&& 3 <= self.l <= MAX_SIDE
        &&& self.workers >= 1
        &&& self.completed <= self.n_tries
        &&& self.window.wf()
        &&& self.resist.len() == spec_n_res(self.l as int)
        &&& self.x.len() == spec_n_unk(self.l as int)
        &&& self.matrix.wf()
        &&& self.matrix.spec_rows() == spec_n_unk(self.l as int)
        &&& self.matrix.cols == spec_n_unk(self.l as int) + 1
    }

    /// Set up a run: allocate the trial-owned buffers for side length
    /// `l` and record the configuration.
    pub fn new(
        dist: D,
        l: usize,
        workers: usize,
        n_tries: usize,
        export_mode: ExportMode,
        isosurface_value: Scalar,
    ) -> (d: TrialDriver<D>)
        requires
            3 <= l <= MAX_SIDE,
            workers >= 1,
        ensures
            d.wf(),
            d.completed == 0,
            d.n_tries == n_tries,
            d.l == l,
            d.workers == workers,
            d.export_mode == export_mode,
    {
        let unknowns = n_unk(l);
        let resistors = n_res(l);
        let z = crate::scalar::scalar_zero();
        let mut resist: Vec<Scalar> = Vec::new();
        while resist.len() < resistors
            invariant
                resist.len() <= resistors,
            decreases resistors - resist.len(),
        {
            resist.push(z);
        }
        let mut x: Vec<Scalar> = Vec::new();
        while x.len() < unknowns
            invariant
                x.len() <= unknowns,
            decreases unknowns - x.len(),
        {
            x.push(z);
        }
        proof {
            assert(spec_n_unk(l as int) <= MAX_SIDE * MAX_SIDE) by (nonlinear_arith)
                requires 3 <= l <= MAX_SIDE;
        }
        let matrix = AugMatrix::zeroed(unknowns, unknowns + 1);
        TrialDriver {
            dist,
            l,
            workers,
            n_tries,
            export_mode,
            isosurface_value,
            completed: 0,
            window: TimingWindow::new(),
            resist,
            x,
            matrix,
        }
    }

    /// Run one trial: draw, assemble, solve, evaluate, record.  A
    /// singular system is reported in the record's outcome, exports are
    /// withheld for it, and the run goes on.
    pub fn step(&mut self, rng: &mut rand::rngs::StdRng) -> (record: TrialRecord)
        requires
            old(self).wf(),
            old(self).completed < old(self).n_tries,
        ensures
            final(self).wf(),
            final(self).completed == old(self).completed + 1,
            final(self).n_tries == old(self).n_tries,
            final(self).l == old(self).l,
            final(self).workers == old(self).workers,
            final(self).export_mode == old(self).export_mode,
            final(self).isosurface_value == old(self).isosurface_value,
            record.iter == old(self).completed,
            record.solution@ == final(self).x@,
            record.conductances@ == final(self).resist@,
            record.outcome matches Err(e) ==> e.column < spec_n_unk(old(self).l as int)
                && record.surface is None,
            record.outcome is Ok && old(self).export_mode.spec_wants_isosurface()
                ==> record.surface is Some,
            record.surface is Some ==> record.outcome is Ok
                && old(self).export_mode.spec_wants_isosurface(),
            record.surface matches Some(surface) ==> surface@ == iso_surface(
                threshold_flags_spec(final(self).x@, old(self).isosurface_value),
                old(self).l as int,
                old(self).l as int,
            ),
            record.err2 == norm2_spec(gview(final(self).matrix), final(self).x@),
            record.errinf == norm_inf_spec(gview(final(self).matrix), final(self).x@),
            record.outcome is Ok ==> forward_spec(
                assembled(final(self).resist@, old(self).l as int),
                0,
                spec_n_unk(old(self).l as int),
            ) == Ok::<Seq<Seq<Scalar>>, int>(gview(final(self).matrix))
                && final(self).x@ == back_sub_state(gview(final(self).matrix), old(self).x@, 0),
            record.outcome matches Err(e) ==> forward_spec(
                assembled(final(self).resist@, old(self).l as int),
                0,
                spec_n_unk(old(self).l as int),
            ) == Err::<Seq<Seq<Scalar>>, int>(e.column as int) && final(self).x@ == old(self).x@,
            exists|d: u64|
                final(self).window.times@ == window_push_spec(old(self).window.times@, d),
            record.eta.hours == eta_secs_spec(
                final(self).window.times@,
                old(self).n_tries - old(self).completed - 1,
            ) / 3600,
            record.eta.minutes == eta_secs_spec(
                final(self).window.times@,
                old(self).n_tries - old(self).completed - 1,
            ) % 3600 / 60,
            record.eta.seconds == eta_secs_spec(
                final(self).window.times@,
                old(self).n_tries - old(self).completed - 1,
            ) % 60,
    {
        let t_fill = instant_now();
        fill_resistances(&self.dist, rng, &mut self.resist);
        let duration_fill_millis = elapsed_millis(&t_fill);

        let t_build = instant_now();
        build_system(&mut self.matrix, &self.resist, self.l);
        let duration_build_millis = elapsed_millis(&t_build);

        let t_gauss = instant_now();
        let outcome = gauss_elimination(&mut self.matrix, &mut self.x, self.workers);
        let duration_gauss_millis = elapsed_millis(&t_gauss);

        proof {
            assert(spec_n_unk(self.l as int) >= 3) by (nonlinear_arith)
                requires 3 <= self.l;
        }
        let err2 = compute_error(&self.matrix, &self.x, Norm::Two);
        let errinf = compute_error(&self.matrix, &self.x, Norm::Inf);

        let duration_millis = duration_fill_millis.saturating_add(duration_build_millis)
            .saturating_add(duration_gauss_millis);
        self.window.push(duration_millis);

        let remaining = self.n_tries - self.completed - 1;
        let eta = hms_parts(eta_seconds(&self.window, remaining));

        let surface = if outcome.is_ok() && self.export_mode.wants_isosurface() {
            Some(compute_isosurface(&self.x, self.isosurface_value, self.l))
        } else {
            None
        };

        let record = TrialRecord {
            iter: self.completed,
            duration_fill_millis,
            duration_build_millis,
            duration_gauss_millis,
            duration_millis,
            err2,
            errinf,
            outcome,
            eta,
            solution: copy_scalars(&self.x),
            conductances: copy_scalars(&self.resist),
            surface,
        };
        self.completed = self.completed + 1;
        record
    }

    /// Run every remaining trial in sequence and return their records:
    /// exactly one record per configured trial, failures included.
    pub fn run(&mut self, rng: &mut rand::rngs::StdRng) -> (records: Vec<TrialRecord>)
        requires
            old(self).wf(),
        ensures
            final(self).wf(),
            final(self).completed == final(self).n_tries,
            records.len() == old(self).n_tries - old(self).completed,
            forall|k: int|
                0 <= k < records.len()
                    ==> (#[trigger] records@[k]).iter == old(self).completed + k,
    {
        let mut records: Vec<TrialRecord> = Vec::new();
        while self.completed < self.n_tries
            invariant
                self.wf(),
                self.n_tries == old(self).n_tries,
                old(self).completed <= self.completed,
                records.len() == self.completed - old(self).completed,
                forall|k: int|
                    0 <= k < records.len()
                        ==> (#[trigger] records@[k]).iter == old(self).completed + k,
            decreases self.n_tries - self.completed,
        {
            let record = self.step(rng);
            records.push(record);
        }
        records
    }
}

impl ExportMode {
    /// The spec-level twin of `wants_isosurface`.
    pub open spec fn spec_wants_isosurface(self) -> bool {
        self == ExportMode::ExportIsoSurface || self == ExportMode::ExportArraysAndIsoSurface
    }
}

} // verus!
