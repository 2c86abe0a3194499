//! Lloyd's relaxation: when to run another pass, and when to stop.
//!
//! A pass triangulates the points and moves each to the centre of its cell.
//! The passes themselves are numeric work done by the caller; what is
//! decided here is how many of them run.

use vstd::prelude::*;
use crate::scalar::Scalar;

verus! {

/// The pattern of 0.01, the convergence threshold unless another is given.
pub const DEFAULT_THRESHOLD_BITS: u32 = 0x3c23_d70a;

/// How long to relax.
#[derive(Debug, Clone, Copy)]
pub struct LloydOptions {
    /// The largest number of passes.
    pub max_iterations: usize,
    /// Relaxation stops once no point moves further than this fraction of
    /// the radius. Zero switches early stopping off.
    pub convergence_threshold: Scalar,
}

impl Default for LloydOptions {
    /// Five passes, stopping early below a hundredth of the radius.
    fn default() -> (options: Self)
        ensures
            options.max_iterations == 5,
            options.convergence_threshold.bits == DEFAULT_THRESHOLD_BITS,
    {
        LloydOptions {
            max_iterations: 5,
            convergence_threshold: Scalar { bits: DEFAULT_THRESHOLD_BITS },
        }
    }
}

impl LloydOptions {
    /// The default options with another number of passes.
    pub fn with_iterations(iterations: usize) -> (options: Self)
        ensures
            options.max_iterations == iterations,
            options.convergence_threshold.bits == DEFAULT_THRESHOLD_BITS,
    {
        LloydOptions {
            max_iterations: iterations,
            convergence_threshold: Scalar { bits: DEFAULT_THRESHOLD_BITS },
        }
    }
}

/// Whether a pass that moved no point further than `max_displacement` ends
/// the relaxation: the threshold is above zero and the displacement below
/// the threshold. Both are lengths, the threshold already multiplied by the
/// radius.
pub open spec fn converges(threshold: Scalar, max_displacement: Scalar) -> bool {
    (Scalar { bits: 0 }).less(threshold) && max_displacement.less(threshold)
}

/// Whether a pass that moved no point further than `max_displacement` ends
/// the relaxation.
pub fn has_converged(threshold: Scalar, max_displacement: Scalar) -> (done: bool)
    ensures
        done == converges(threshold, max_displacement),
{
    threshold.is_positive() && max_displacement.lt(threshold)
}

/// The largest of the displacements, and zero if none is above zero. A
/// displacement that is no number is passed over.
pub open spec fn largest(displacements: Seq<Scalar>) -> Scalar
    decreases displacements.len(),
{
    if displacements.len() == 0 {
        Scalar { bits: 0 }
    } else {
        let before = largest(displacements.drop_last());
        if before.less(displacements.last()) {
            displacements.last()
        } else {
            before
        }
    }
}

/// How far the farthest point moved in a pass, given how far each moved.
pub fn max_displacement(displacements: &[Scalar]) -> (max: Scalar)
    ensures
        max == largest(displacements@),
{
    let count = displacements.len();
    let mut max = Scalar::zero();
    let mut i: usize = 0;
    assert(displacements@.take(0) =~= Seq::<Scalar>::empty());
    while i < count
        invariant
            i <= count,
            count == displacements@.len(),
            max == largest(displacements@.take(i as int)),
        decreases count - i,
    {
        let displacement = displacements[i];
        proof {
            assert(displacements@.take(i + 1).drop_last() =~= displacements@.take(i as int));
            assert(displacements@.take(i + 1).last() == displacement);
        }
        if max.lt(displacement) {
            max = displacement;
        }
        i += 1;
    }
    assert(displacements@.take(count as int) =~= displacements@);
    max
}

/// The largest displacement is a number that is not below zero.
pub proof fn lemma_largest_is_number(displacements: Seq<Scalar>)
    ensures
        !largest(displacements).nan(),
        !largest(displacements).less((Scalar { bits: 0 })),
    decreases displacements.len(),
{
    if displacements.len() > 0 {
        lemma_largest_is_number(displacements.drop_last());
    }
}

/// No displacement is above the largest.
pub proof fn lemma_largest_bounds(displacements: Seq<Scalar>, at: int)
    requires
        0 <= at < displacements.len(),
    ensures
        !largest(displacements).less(displacements[at]),
    decreases displacements.len(),
{
    let before = displacements.drop_last();
    lemma_largest_is_number(before);
    if at < before.len() {
        lemma_largest_bounds(before, at);
        assert(before[at] == displacements[at]);
    }
}

/// How far a relaxation has come.
#[derive(Debug, Clone, Copy, PartialEq, Eq, Structural)]
pub struct LloydProgress {
    /// The passes run so far.
    pub iterations_run: usize,
    /// Whether the last pass ended the relaxation.
    pub converged: bool,
}

impl LloydProgress {
    /// Whether another pass is due: none has converged, and fewer than
    /// `max_iterations` have run.
    pub open spec fn continues(self, options: LloydOptions) -> bool {
        !self.converged && self.iterations_run < options.max_iterations
    }

    /// The progress after a pass that moved no point further than
    /// `max_displacement`.
    pub open spec fn next(self, threshold: Scalar, max_displacement: Scalar) -> LloydProgress {
        LloydProgress {
            iterations_run: (self.iterations_run + 1) as usize,
            converged: converges(threshold, max_displacement),
        }
    }

    /// Before the first pass.
    pub fn new() -> (progress: Self)
        ensures
            progress.iterations_run == 0,
            !progress.converged,
    {
        LloydProgress { iterations_run: 0, converged: false }
    }

    /// Whether another pass is due.
    pub fn should_continue(&self, options: &LloydOptions) -> (more: bool)
        ensures
            more == self.continues(*options),
    {
        !self.converged && self.iterations_run < options.max_iterations
    }

    /// Records a pass that moved no point further than `max_displacement`.
    /// `threshold` is the convergence threshold as a length: the fraction
    /// of the options times the radius.
    pub fn after_pass(self, threshold: Scalar, max_displacement: Scalar) -> (progress: Self)
        requires
            self.iterations_run < usize::MAX,
        ensures
            progress == self.next(threshold, max_displacement),
            progress.iterations_run == self.iterations_run + 1,
    {
        LloydProgress {
            iterations_run: self.iterations_run + 1,
            converged: has_converged(threshold, max_displacement),
        }
    }
}

/// The progress after the passes whose largest displacements are
/// `displacements`, each run only while another pass was due.
pub open spec fn progress_after(
    options: LloydOptions,
    threshold: Scalar,
    displacements: Seq<Scalar>,
) -> LloydProgress
    decreases displacements.len(),
{
    if displacements.len() == 0 {
        LloydProgress { iterations_run: 0, converged: false }
    } else {
        let before = progress_after(options, threshold, displacements.drop_last());
        if before.continues(options) {
            before.next(threshold, displacements.last())
        } else {
            before
        }
    }
}

/// However the passes turn out, no more than `max_iterations` of them run.
pub proof fn lemma_passes_bounded(
    options: LloydOptions,
    threshold: Scalar,
    displacements: Seq<Scalar>,
)
    ensures
        progress_after(options, threshold, displacements).iterations_run <= options.max_iterations,
        progress_after(options, threshold, displacements).iterations_run <= displacements.len(),
    decreases displacements.len(),
{
    if displacements.len() > 0 {
        lemma_passes_bounded(options, threshold, displacements.drop_last());
    }
}

/// A threshold that is not above zero never stops the relaxation early:
/// every pass that is offered runs, up to `max_iterations`.
pub proof fn lemma_zero_threshold_runs_all(
    options: LloydOptions,
    threshold: Scalar,
    displacements: Seq<Scalar>,
)
    requires
        !(Scalar { bits: 0 }).less(threshold),
    ensures
        !progress_after(options, threshold, displacements).converged,
        progress_after(options, threshold, displacements).iterations_run == if displacements.len()
            <= options.max_iterations {
            displacements.len()
        } else {
            options.max_iterations as nat
        },
    decreases displacements.len(),
{
    if displacements.len() > 0 {
        lemma_zero_threshold_runs_all(options, threshold, displacements.drop_last());
    }
}

/// Once a pass has converged, no later pass runs.
pub proof fn lemma_converged_is_final(
    options: LloydOptions,
    threshold: Scalar,
    displacements: Seq<Scalar>,
    more: Scalar,
)
    requires
        progress_after(options, threshold, displacements).converged,
    ensures
        progress_after(options, threshold, displacements.push(more)) == progress_after(
            options,
            threshold,
            displacements,
        ),
{
    assert(displacements.push(more).drop_last() =~= displacements);
}

} // verus!
