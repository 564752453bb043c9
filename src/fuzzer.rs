use vstd::prelude::*;

use crate::corpus::{InMemoryCorpus, QueueScheduler, Testcase};
use crate::error::Error;
use crate::events::Event;
use crate::executor::{Executor, Harness, InMemoryExecutor};
use crate::exit_kind::ExitKind;
use crate::feedback::Feedback;
use crate::generalized::GeneralizedInput;
use crate::inputs::{HasTargetBytes, Input};
use crate::observers::{HasEdgeMap, ObserversTuple};
use crate::stages::StagesTuple;

verus! {

/// What a worker keeps across runs: its corpus, its solutions and how many
/// runs it judged.
#[derive(Debug)]
pub struct FuzzerState<I> {
    pub corpus: InMemoryCorpus<I>,
    pub solutions: InMemoryCorpus<I>,
    pub executions: u64,
}

impl<I> FuzzerState<I> {
    /// A state holding `corpus` and `solutions`, with no run judged yet.
    pub fn new(corpus: InMemoryCorpus<I>, solutions: InMemoryCorpus<I>) -> (r: Self)
        ensures
            r.corpus == corpus,
            r.solutions == solutions,
            r.executions == 0,
    {
        FuzzerState { corpus, solutions, executions: 0 }
    }
}

/// Where a judged input went.
#[derive(Debug, Clone, Copy, PartialEq, Eq, Structural)]
pub enum ExecuteInputResult {
    /// Nowhere.
    Discarded,
    /// Into the corpus, with this id.
    Corpus(usize),
    /// Into the solutions, with this id.
    Solution(usize),
}

/// `n` plus one, staying at the largest `u64`.
pub open spec fn bump(n: u64) -> u64 {
    if n < u64::MAX {
        (n + 1) as u64
    } else {
        n
    }
}

/// If `a` starts `b`, and `c` is `b` or `b` with one testcase more, `a`
/// starts `c`.
pub proof fn lemma_prefix_step<I>(a: Seq<Testcase<I>>, b: Seq<Testcase<I>>, c: Seq<Testcase<I>>)
    requires
        a.is_prefix_of(b),
        c == b || grew_by_one(b, c),
    ensures
        a.is_prefix_of(c),
{
    if c != b {
        assert(c.subrange(0, a.len() as int) =~= b.subrange(0, a.len() as int));
    }
}

/// `old` with one testcase more at the end.
pub open spec fn grew_by_one<I>(old: Seq<Testcase<I>>, new: Seq<Testcase<I>>) -> bool {
    new.len() == old.len() + 1 && new.subrange(0, old.len() as int) == old
}

/// The progress report of a worker in `state`, made at `time`.
pub fn stats_event<I>(state: &FuzzerState<I>, time: u64) -> (r: Event)
    ensures
        r == (Event::UpdateStats { executions: state.executions, time }),
{
    Event::UpdateStats { executions: state.executions, time }
}

/// Whether filing `input`, after a run that left `map` and ended as
/// `exit_kind`, takes the fuzzer from `f0` to `f1` and the state from `s0` to
/// `s1` with result `r`. The run is counted. The objective judges it first:
/// if it holds, one solutions entry is added, holding the input as
/// `wrapped_as_testcase` leaves it, the feedback is untouched and an
/// `Objective` event is returned. Otherwise the feedback judges: if it holds,
/// one corpus entry is added the same way and a `NewTestcase` event carries
/// the input's target bytes; if not, nothing is filed or announced.
pub open spec fn filed<F: Feedback, O: Feedback, I: Input + HasTargetBytes>(
    f0: StdFuzzer<F, O>,
    f1: StdFuzzer<F, O>,
    s0: FuzzerState<I>,
    s1: FuzzerState<I>,
    input: I,
    map: Seq<u8>,
    exit_kind: ExitKind,
    r: (ExecuteInputResult, Option<Event>),
) -> bool {
    &&& f1.feedback.ready(map)
    &&& f1.objective.ready(map)
    &&& f1.scheduler == f0.scheduler
    &&& s1.executions == bump(s0.executions)
    &&& f0.objective.judged(f1.objective, map, exit_kind)
    &&& if f0.objective.verdict(map, exit_kind) {
        &&& r.0 matches ExecuteInputResult::Solution(id) && id == s0.solutions@.entries.len()
        &&& grew_by_one(s0.solutions@.entries, s1.solutions@.entries)
        &&& input.wrapped(s1.solutions@.entries.last().input)
        &&& s1.solutions@.entries.last().parent_id is None
        &&& s1.solutions@.current == s0.solutions@.current
        &&& s1.corpus@ == s0.corpus@
        &&& f1.feedback == f0.feedback
        &&& r.1 == Some(Event::Objective { objective_size: (s0.solutions@.entries.len() + 1) as usize })
    } else {
        &&& f0.feedback.judged(f1.feedback, map, exit_kind)
        &&& s1.solutions@ == s0.solutions@
        &&& if f0.feedback.verdict(map, exit_kind) {
            &&& r.0 matches ExecuteInputResult::Corpus(id) && id == s0.corpus@.entries.len()
            &&& grew_by_one(s0.corpus@.entries, s1.corpus@.entries)
            &&& input.wrapped(s1.corpus@.entries.last().input)
            &&& s1.corpus@.entries.last().parent_id is None
            &&& s1.corpus@.current == s0.corpus@.current
            &&& r.1 matches Some(Event::NewTestcase { input: bytes, exit_kind: k, corpus_size })
                && input.target_is(bytes@) && k == exit_kind && corpus_size
                == s0.corpus@.entries.len() + 1
        } else {
            &&& r.0 == ExecuteInputResult::Discarded
            &&& s1.corpus@ == s0.corpus@
            &&& r.1 is None
        }
    }
}

/// Runs that neither the objective nor the feedback holds for file nothing:
/// after `n` of them, filed one after the other, the corpus and the
/// solutions are as they were, and `n` more runs are counted.
pub proof fn lemma_quiet_runs<F: Feedback, O: Feedback, I: Input + HasTargetBytes>(
    fuzzers: Seq<StdFuzzer<F, O>>,
    states: Seq<FuzzerState<I>>,
    inputs: Seq<I>,
    maps: Seq<Seq<u8>>,
    kinds: Seq<ExitKind>,
    results: Seq<(ExecuteInputResult, Option<Event>)>,
    n: nat,
)
    requires
        fuzzers.len() == n + 1,
        states.len() == n + 1,
        inputs.len() == n,
        maps.len() == n,
        kinds.len() == n,
        results.len() == n,
        forall|i: int|
            0 <= i < n ==> #[trigger] filed(
                fuzzers[i],
                fuzzers[i + 1],
                states[i],
                states[i + 1],
                inputs[i],
                maps[i],
                kinds[i],
                results[i],
            ) && !fuzzers[i].objective.verdict(maps[i], kinds[i]) && !fuzzers[i].feedback.verdict(
                maps[i],
                kinds[i],
            ),
        states[0].executions + n <= u64::MAX,
    ensures
        states[n as int].corpus@ == states[0].corpus@,
        states[n as int].solutions@ == states[0].solutions@,
        states[n as int].executions == states[0].executions + n,
        forall|i: int| 0 <= i < n ==> (#[trigger] results[i]).0 == ExecuteInputResult::Discarded
            && results[i].1 is None,
    decreases n,
{
    if n > 0 {
        let m = (n - 1) as nat;
        lemma_quiet_runs(
            fuzzers.drop_last(),
            states.drop_last(),
            inputs.drop_last(),
            maps.drop_last(),
            kinds.drop_last(),
            results.drop_last(),
            m,
        );
        assert(filed(
            fuzzers[m as int],
            fuzzers[m as int + 1],
            states[m as int],
            states[m as int + 1],
            inputs[m as int],
            maps[m as int],
            kinds[m as int],
            results[m as int],
        ));
        assert forall|i: int| 0 <= i < n implies (#[trigger] results[i]).0
            == ExecuteInputResult::Discarded && results[i].1 is None by {
            if i < m {
                assert(results.drop_last()[i] == results[i]);
            } else {
                assert(filed(
                    fuzzers[i],
                    fuzzers[i + 1],
                    states[i],
                    states[i + 1],
                    inputs[i],
                    maps[i],
                    kinds[i],
                    results[i],
                ));
            }
        }
    }
}

/// Judges runs and files inputs: an objective decides what is a solution,
/// a feedback what else is worth keeping; the scheduler picks what to fuzz.
#[derive(Debug)]
pub struct StdFuzzer<F, O> {
    pub feedback: F,
    pub objective: O,
    pub scheduler: QueueScheduler,
}

impl<F: Feedback, O: Feedback> StdFuzzer<F, O> {
    pub fn new(feedback: F, objective: O) -> (r: Self)
        ensures
            r.feedback == feedback,
            r.objective == objective,
    {
        StdFuzzer { feedback, objective, scheduler: QueueScheduler::new() }
    }

    /// Files `input` after a run that left `map` and ended as `exit_kind`.
    /// The objective judges first: a solution goes to the solutions and the
    /// feedback does not see the run. Otherwise the feedback judges, and an
    /// interesting input goes to the corpus. Each input filed is announced.
    pub fn process_execution<I: Input + HasTargetBytes>(
        &mut self,
        state: &mut FuzzerState<I>,
        input: I,
        map: &[u8],
        exit_kind: ExitKind,
    ) -> (r: (ExecuteInputResult, Option<Event>))
        requires
            old(self).feedback.ready(map@),
            old(self).objective.ready(map@),
        ensures
            filed(*old(self), *final(self), *old(state), *final(state), input, map@, exit_kind, r),
    {
        if state.executions < u64::MAX {
            state.executions = state.executions + 1;
        }
        let is_solution = self.objective.is_interesting(map, exit_kind);
        if is_solution {
            let mut input = input;
            input.wrapped_as_testcase();
            let mut testcase = Testcase::new(input);
            self.objective.append_metadata(&mut testcase);
            let id = state.solutions.add(testcase);
            assert(state.solutions@.entries.subrange(0, id as int) =~= old(state).solutions@.entries);
            let size = state.solutions.count();
            return (ExecuteInputResult::Solution(id), Some(Event::Objective { objective_size: size }));
        }
        let is_interesting = self.feedback.is_interesting(map, exit_kind);
        if is_interesting {
            let bytes = input.target_bytes();
            let mut input = input;
            input.wrapped_as_testcase();
            let mut testcase = Testcase::new(input);
            self.feedback.append_metadata(&mut testcase);
            let id = state.corpus.add(testcase);
            assert(state.corpus@.entries.subrange(0, id as int) =~= old(state).corpus@.entries);
            let size = state.corpus.count();
            (
                ExecuteInputResult::Corpus(id),
                Some(Event::NewTestcase { input: bytes, exit_kind, corpus_size: size }),
            )
        } else {
            (ExecuteInputResult::Discarded, None)
        }
    }

    /// Runs the target on `input` and files it by what its edge map and
    /// exit kind say. Fails with `IllegalState`, and files nothing, where
    /// the edge map left by the run does not fit the feedbacks.
    pub fn evaluate_input<I: Input + HasTargetBytes, H: Harness<OT>, OT: ObserversTuple + HasEdgeMap>(
        &mut self,
        state: &mut FuzzerState<I>,
        executor: &mut InMemoryExecutor<H, OT>,
        input: I,
    ) -> (r: Result<(ExecuteInputResult, Option<Event>), Error>)
        ensures
            exists|k: ExitKind|
                #[trigger] old(executor).ran_on(*final(executor), input, Ok::<ExitKind, Error>(k))
                    && (r matches Ok(res) ==> filed(
                    *old(self),
                    *final(self),
                    *old(state),
                    *final(state),
                    input,
                    final(executor).observers_view().edge_view(),
                    k,
                    res,
                )),
            r is Ok <==> (old(self).feedback.ready(final(executor).observers_view().edge_view())
                && old(self).objective.ready(final(executor).observers_view().edge_view())),
            r is Err ==> r == Err::<(ExecuteInputResult, Option<Event>), Error>(Error::IllegalState)
                && *final(self) == *old(self) && *final(state) == *old(state),
            r is Ok ==> final(state).executions == bump(old(state).executions),
            final(state).corpus@.entries == old(state).corpus@.entries || grew_by_one(
                old(state).corpus@.entries,
                final(state).corpus@.entries,
            ),
            final(state).solutions@.entries == old(state).solutions@.entries || grew_by_one(
                old(state).solutions@.entries,
                final(state).solutions@.entries,
            ),
            r matches Ok((ExecuteInputResult::Solution(id), _)) ==> {
                &&& id == old(state).solutions@.entries.len()
                &&& grew_by_one(old(state).solutions@.entries, final(state).solutions@.entries)
                &&& final(state).corpus@ == old(state).corpus@
            },
            r matches Ok((ExecuteInputResult::Corpus(id), _)) ==> {
                &&& id == old(state).corpus@.entries.len()
                &&& grew_by_one(old(state).corpus@.entries, final(state).corpus@.entries)
                &&& final(state).solutions@ == old(state).solutions@
            },
            r matches Ok((ExecuteInputResult::Discarded, _)) ==> {
                &&& final(state).corpus@ == old(state).corpus@
                &&& final(state).solutions@ == old(state).solutions@
            },
    {
        let exit_kind = match executor.run_target(&input) {
            Ok(k) => k,
            Err(e) => return Err(Error::IllegalState),
        };
        let map = executor.observers().edge_map();
        if !self.feedback.can_judge(map) || !self.objective.can_judge(map) {
            return Err(Error::IllegalState);
        }
        Ok(self.process_execution(state, input, map, exit_kind))
    }

    /// Picks the next corpus entry and runs every stage on it; its id, or
    /// `Empty` where the corpus has no entry, or the first error of a stage.
    pub fn fuzz_one<E, ST: StagesTuple<E, Self, FuzzerState<I>>, I>(
        &mut self,
        stages: &mut ST,
        executor: &mut E,
        state: &mut FuzzerState<I>,
    ) -> (r: Result<usize, Error>)
        ensures
            old(state).corpus@.entries.len() == 0 ==> r == Err::<usize, Error>(Error::Empty),
            r matches Ok(id) ==> id == crate::corpus::queue_next(
                old(state).corpus@.current,
                old(state).corpus@.entries.len(),
            ),
            old(state).corpus@.entries.len() > 0 ==> exists|
                picked: FuzzerState<I>,
                rs: Result<(), Error>,
            |
                #[trigger] old(stages).all_performed(
                    *final(stages),
                    *old(self),
                    *final(self),
                    *old(executor),
                    *final(executor),
                    picked,
                    *final(state),
                    crate::corpus::queue_next(
                        old(state).corpus@.current,
                        old(state).corpus@.entries.len(),
                    ),
                    rs,
                ) && picked.corpus@.entries == old(state).corpus@.entries && picked.corpus@.current
                    == Some(
                    crate::corpus::queue_next(
                        old(state).corpus@.current,
                        old(state).corpus@.entries.len(),
                    ),
                ) && picked.solutions@ == old(state).solutions@ && picked.executions == old(
                    state,
                ).executions && match rs {
                    Ok(()) => r == Ok::<usize, Error>(
                        crate::corpus::queue_next(
                            old(state).corpus@.current,
                            old(state).corpus@.entries.len(),
                        ),
                    ),
                    Err(e) => r == Err::<usize, Error>(e),
                },
    {
        let id = match self.scheduler.next(&mut state.corpus) {
            Ok(id) => id,
            Err(e) => return Err(e),
        };
        let ghost picked = *state;
        let r = stages.perform_all(self, executor, state, id);
        assert(old(stages).all_performed(
            *stages,
            *old(self),
            *self,
            *old(executor),
            *executor,
            picked,
            *state,
            id,
            r,
        ));
        match r {
            Ok(()) => Ok(id),
            Err(e) => Err(e),
        }
    }

    /// Runs `fuzz_one` `iters` times, stopping at the first error; the id
    /// fuzzed last. `IllegalArgument` where `iters` is zero.
    pub fn fuzz_loop_for<E, ST: StagesTuple<E, Self, FuzzerState<I>>, I>(
        &mut self,
        stages: &mut ST,
        executor: &mut E,
        state: &mut FuzzerState<I>,
        iters: u64,
    ) -> (r: Result<usize, Error>)
        ensures
            iters == 0 ==> r == Err::<usize, Error>(Error::IllegalArgument),
            iters > 0 && old(state).corpus@.entries.len() == 0 ==> r == Err::<usize, Error>(
                Error::Empty,
            ),
    {
        if iters == 0 {
            return Err(Error::IllegalArgument);
        }
        let mut last: usize = 0;
        let mut i: u64 = 0;
        while i < iters
            invariant
                i <= iters,
                i == 0 ==> state.corpus@.entries.len() == old(state).corpus@.entries.len(),
                i > 0 ==> old(state).corpus@.entries.len() > 0,
            decreases iters - i,
        {
            match self.fuzz_one(stages, executor, state) {
                Ok(id) => {
                    last = id;
                },
                Err(e) => {
                    return Err(e);
                },
            }
            i = i + 1;
        }
        Ok(last)
    }

    /// Takes in an event from another worker. A new testcase found there is
    /// run here and filed by this worker's own feedbacks, so that what each
    /// worker keeps follows what it has seen itself; the run is not announced
    /// again. Any other event changes nothing.
    pub fn on_remote_event<H: Harness<OT>, OT: ObserversTuple + HasEdgeMap>(
        &mut self,
        state: &mut FuzzerState<GeneralizedInput>,
        executor: &mut InMemoryExecutor<H, OT>,
        event: Event,
    ) -> (r: Result<ExecuteInputResult, Error>)
        ensures
            event matches Event::NewTestcase { input: bytes, .. } ==> {
                &&& r is Ok <==> (old(self).feedback.ready(final(executor).observers_view().edge_view())
                    && old(self).objective.ready(final(executor).observers_view().edge_view()))
                &&& r is Err ==> r == Err::<ExecuteInputResult, Error>(Error::IllegalState)
                    && *final(self) == *old(self) && *final(state) == *old(state)
                &&& r matches Ok(res) ==> exists|run: GeneralizedInput, k: ExitKind, e: Option<Event>|
                    run@.bytes == bytes@ && run@.template is None && !run@.grimoire_mutated
                        && old(executor).ran_on(*final(executor), run, Ok::<ExitKind, Error>(k))
                        && #[trigger] filed(
                        *old(self),
                        *final(self),
                        *old(state),
                        *final(state),
                        run,
                        final(executor).observers_view().edge_view(),
                        k,
                        (res, e),
                    )
            },
            !(event is NewTestcase) ==> {
                &&& r == Ok::<ExecuteInputResult, Error>(ExecuteInputResult::Discarded)
                &&& final(state).corpus@ == old(state).corpus@
                &&& final(state).solutions@ == old(state).solutions@
                &&& final(state).executions == old(state).executions
            },
            r matches Ok(ExecuteInputResult::Corpus(id)) ==> {
                &&& id == old(state).corpus@.entries.len()
                &&& grew_by_one(old(state).corpus@.entries, final(state).corpus@.entries)
                &&& final(state).solutions@ == old(state).solutions@
            },
            r matches Ok(ExecuteInputResult::Solution(id)) ==> {
                &&& id == old(state).solutions@.entries.len()
                &&& grew_by_one(old(state).solutions@.entries, final(state).solutions@.entries)
                &&& final(state).corpus@ == old(state).corpus@
            },
    {
        match event {
            Event::NewTestcase { input, .. } => {
                match self.evaluate_input(state, executor, GeneralizedInput::new(input)) {
                    Ok((result, _)) => Ok(result),
                    Err(e) => Err(e),
                }
            },
            _ => Ok(ExecuteInputResult::Discarded),
        }
    }
}

} // verus!
