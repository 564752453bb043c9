use vstd::prelude::*;

use crate::error::Error;
use crate::executor::{Harness, InMemoryExecutor};
use crate::feedback::Feedback;
use crate::fuzzer::{lemma_prefix_step, FuzzerState, StdFuzzer};
use crate::inputs::{HasTargetBytes, Input};
use crate::observers::{HasEdgeMap, ObserversTuple};

verus! {

/// One step of fuzzing a corpus entry: it may run the target several times
/// and add entries.
pub trait Stage<E, Z, S>: Sized {
    /// Whether running this stage on the corpus entry `idx` may leave the
    /// stage as `next`, take the fuzzer from `z0` to `z1`, the executor from
    /// `e0` to `e1` and the state from `s0` to `s1`, and return `r`.
    spec fn performed(
        &self,
        next: Self,
        z0: Z,
        z1: Z,
        e0: E,
        e1: E,
        s0: S,
        s1: S,
        idx: usize,
        r: Result<(), Error>,
    ) -> bool;

    /// Runs the stage on the corpus entry `corpus_idx`.
    fn perform(&mut self, fuzzer: &mut Z, executor: &mut E, state: &mut S, corpus_idx: usize) -> (r:
        Result<(), Error>)
        ensures
            old(self).performed(
                *final(self),
                *old(fuzzer),
                *final(fuzzer),
                *old(executor),
                *final(executor),
                *old(state),
                *final(state),
                corpus_idx,
                r,
            ),
    ;
}

/// A fixed list of stages, run in order for each corpus entry.
pub trait StagesTuple<E, Z, S>: Sized {
    /// Whether running the stages on the corpus entry `idx` may leave them as
    /// `next`, take the fuzzer from `z0` to `z1`, the executor from `e0` to
    /// `e1` and the state from `s0` to `s1`, and return `r`.
    spec fn all_performed(
        &self,
        next: Self,
        z0: Z,
        z1: Z,
        e0: E,
        e1: E,
        s0: S,
        s1: S,
        idx: usize,
        r: Result<(), Error>,
    ) -> bool;

    /// Runs every stage in order, stopping at the first error.
    fn perform_all(&mut self, fuzzer: &mut Z, executor: &mut E, state: &mut S, corpus_idx: usize) -> (r:
        Result<(), Error>)
        ensures
            old(self).all_performed(
                *final(self),
                *old(fuzzer),
                *final(fuzzer),
                *old(executor),
                *final(executor),
                *old(state),
                *final(state),
                corpus_idx,
                r,
            ),
    ;
}

impl<E, Z, S> StagesTuple<E, Z, S> for () {
    /// No stage: nothing changes, and the result is `Ok`.
    open spec fn all_performed(
        &self,
        next: Self,
        z0: Z,
        z1: Z,
        e0: E,
        e1: E,
        s0: S,
        s1: S,
        idx: usize,
        r: Result<(), Error>,
    ) -> bool {
        r is Ok && z1 == z0 && e1 == e0 && s1 == s0
    }

    fn perform_all(&mut self, fuzzer: &mut Z, executor: &mut E, state: &mut S, corpus_idx: usize) -> (r:
        Result<(), Error>) {
        Ok(())
    }
}

impl<E, Z, S, Head: Stage<E, Z, S>, Tail: StagesTuple<E, Z, S>> StagesTuple<E, Z, S> for (Head, Tail) {
    /// The first stage runs, once, from where the call starts. Where it fails,
    /// its error is the result and the other stages do not run; else they
    /// run from where it left off, and their result is the result.
    open spec fn all_performed(
        &self,
        next: Self,
        z0: Z,
        z1: Z,
        e0: E,
        e1: E,
        s0: S,
        s1: S,
        idx: usize,
        r: Result<(), Error>,
    ) -> bool {
        exists|zm: Z, em: E, sm: S, rh: Result<(), Error>|
            #[trigger] self.0.performed(next.0, z0, zm, e0, em, s0, sm, idx, rh) && match rh {
                Ok(()) => self.1.all_performed(next.1, zm, z1, em, e1, sm, s1, idx, r),
                Err(err) => r == Err::<(), Error>(err) && next.1 == self.1 && z1 == zm && e1 == em
                    && s1 == sm,
            }
    }

    fn perform_all(&mut self, fuzzer: &mut Z, executor: &mut E, state: &mut S, corpus_idx: usize) -> (r:
        Result<(), Error>) {
        let head = self.0.perform(fuzzer, executor, state, corpus_idx);
        let ghost zm = *fuzzer;
        let ghost em = *executor;
        let ghost sm = *state;
        match head {
            Ok(()) => {
                let r = self.1.perform_all(fuzzer, executor, state, corpus_idx);
                assert(old(self).0.performed(self.0, *old(fuzzer), zm, *old(executor), em, *old(state), sm, corpus_idx, head));
                r
            },
            Err(e) => {
                assert(old(self).0.performed(self.0, *old(fuzzer), zm, *old(executor), em, *old(state), sm, corpus_idx, head));
                Err(e)
            },
        }
    }
}

/// Whether a mutator changed its input.
#[derive(Debug, Clone, Copy, PartialEq, Eq, Structural)]
pub enum MutationResult {
    Mutated,
    Skipped,
}

/// Changes inputs in place.
pub trait Mutator<I> {
    /// Changes `input`; `stage_idx` counts the mutations of this stage run.
    fn mutate(&mut self, input: &mut I, stage_idx: usize) -> MutationResult;
}

/// Runs `iterations` mutations of a corpus entry: each starts from a copy of
/// the entry, and each mutated copy is run and filed; a skipped one is not.
#[derive(Debug)]
pub struct StdMutationalStage<M> {
    pub mutator: M,
    pub iterations: usize,
}

impl<M> StdMutationalStage<M> {
    pub fn new(mutator: M, iterations: usize) -> (r: Self)
        ensures
            r.mutator == mutator,
            r.iterations == iterations,
    {
        StdMutationalStage { mutator, iterations }
    }
}

impl<
    I: Input + HasTargetBytes + Clone,
    M: Mutator<I>,
    F: Feedback,
    O: Feedback,
    H: Harness<OT>,
    OT: ObserversTuple + HasEdgeMap,
> Stage<InMemoryExecutor<H, OT>, StdFuzzer<F, O>, FuzzerState<I>> for StdMutationalStage<M> {
    /// The corpus and the solutions only grow. With no iteration nothing
    /// changes and the result is `Ok`. Where `idx` names no entry, the
    /// result is `IllegalArgument` and nothing changes. Any other error is
    /// `IllegalState`, from a run whose edge map did not fit the feedbacks.
    open spec fn performed(
        &self,
        next: Self,
        z0: StdFuzzer<F, O>,
        z1: StdFuzzer<F, O>,
        e0: InMemoryExecutor<H, OT>,
        e1: InMemoryExecutor<H, OT>,
        s0: FuzzerState<I>,
        s1: FuzzerState<I>,
        idx: usize,
        r: Result<(), Error>,
    ) -> bool {
        let bad = idx >= s0.corpus@.entries.len();
        &&& next.iterations == self.iterations
        &&& s0.corpus@.entries.is_prefix_of(s1.corpus@.entries)
        &&& s0.solutions@.entries.is_prefix_of(s1.solutions@.entries)
        &&& (self.iterations == 0 ==> r is Ok && z1 == z0 && e1 == e0 && s1 == s0)
        &&& (self.iterations > 0 && bad ==> r == Err::<(), Error>(Error::IllegalArgument) && z1 == z0
            && e1 == e0 && s1 == s0)
        &&& (r matches Err(e) ==> e == Error::IllegalState || (e == Error::IllegalArgument
            && self.iterations > 0 && bad))
    }

    fn perform(
        &mut self,
        fuzzer: &mut StdFuzzer<F, O>,
        executor: &mut InMemoryExecutor<H, OT>,
        state: &mut FuzzerState<I>,
        corpus_idx: usize,
    ) -> (r: Result<(), Error>) {
        assert(old(state).corpus@.entries.is_prefix_of(old(state).corpus@.entries)) by {
            assert(old(state).corpus@.entries =~= old(state).corpus@.entries.subrange(
                0,
                old(state).corpus@.entries.len() as int,
            ));
        }
        assert(old(state).solutions@.entries.is_prefix_of(old(state).solutions@.entries)) by {
            assert(old(state).solutions@.entries =~= old(state).solutions@.entries.subrange(
                0,
                old(state).solutions@.entries.len() as int,
            ));
        }
        let mut i: usize = 0;
        while i < self.iterations
            invariant
                i <= self.iterations,
                self.iterations == old(self).iterations,
                old(state).corpus@.entries.is_prefix_of(state.corpus@.entries),
                old(state).solutions@.entries.is_prefix_of(state.solutions@.entries),
                i == 0 ==> *state == *old(state) && *fuzzer == *old(fuzzer) && *executor == *old(
                    executor,
                ),
                i > 0 ==> corpus_idx < old(state).corpus@.entries.len(),
            decreases self.iterations - i,
        {
            let mut input = match state.corpus.get(corpus_idx) {
                Ok(testcase) => testcase.input.clone(),
                Err(e) => return Err(e),
            };
            match self.mutator.mutate(&mut input, i) {
                MutationResult::Mutated => {
                    let ghost corpus_before = state.corpus@.entries;
                    let ghost solutions_before = state.solutions@.entries;
                    match fuzzer.evaluate_input(state, executor, input) {
                        Ok(_) => {},
                        Err(e) => return Err(e),
                    }
                    proof {
                        lemma_prefix_step(old(state).corpus@.entries, corpus_before, state.corpus@.entries);
                        lemma_prefix_step(
                            old(state).solutions@.entries,
                            solutions_before,
                            state.solutions@.entries,
                        );
                    }
                },
                MutationResult::Skipped => {},
            }
            i = i + 1;
        }
        Ok(())
    }
}

} // verus!