use libafl_core::{
    CrashFeedback, Event, FeedbackOrFast, TimeoutFeedback, ExecuteInputResult, ExitKind, FuzzerState, GeneralizedInput, Harness,
    HasBytesVec, InMemoryCorpus, InMemoryExecutor, MaxMapFeedback, MutationResult, Mutator,
    Stage, StdFuzzer, StdMapObserver, StdMutationalStage, Testcase,
};

type Obs = (StdMapObserver, ());

/// Marks edge 0 when the first byte is `A`.
struct EdgeOnA;

impl Harness<Obs> for EdgeOnA {
    fn run(&self, observers: &mut Obs, bytes: &[u8]) -> ExitKind {
        if !bytes.is_empty() && bytes[0] == 0x41 {
            observers.0.hit(0);
        }
        ExitKind::Normal
    }
}

/// Crashes on one exact input, marks edge 1 on any input starting with `Z`.
struct CrashOn(&'static [u8]);

impl Harness<Obs> for CrashOn {
    fn run(&self, observers: &mut Obs, bytes: &[u8]) -> ExitKind {
        if bytes == self.0 {
            return ExitKind::Crash;
        }
        if !bytes.is_empty() && bytes[0] == b'Z' {
            observers.0.hit(1);
        }
        ExitKind::Normal
    }
}

/// Always runs cleanly without touching the map.
struct Quiet;

impl Harness<Obs> for Quiet {
    fn run(&self, _observers: &mut Obs, _bytes: &[u8]) -> ExitKind {
        ExitKind::Normal
    }
}

/// Leaves the input as it is.
struct Keep;

impl Mutator<GeneralizedInput> for Keep {
    fn mutate(&mut self, _input: &mut GeneralizedInput, _stage_idx: usize) -> MutationResult {
        MutationResult::Mutated
    }
}

/// Sets the first byte to 0, 1, 2, ... on successive calls.
struct CountingByte {
    next: u8,
}

impl Mutator<GeneralizedInput> for CountingByte {
    fn mutate(&mut self, input: &mut GeneralizedInput, _stage_idx: usize) -> MutationResult {
        if input.bytes().is_empty() {
            return MutationResult::Skipped;
        }
        input.bytes_mut()[0] = self.next;
        self.next = self.next.wrapping_add(1);
        MutationResult::Mutated
    }
}

fn observers() -> Obs {
    (StdMapObserver::new("edges".to_string(), 4), ())
}

fn new_state() -> FuzzerState<GeneralizedInput> {
    FuzzerState::new(InMemoryCorpus::new(), InMemoryCorpus::new())
}

#[test]
fn trivial_fuzz_keeps_one_entry() {
    let mut fuzzer = StdFuzzer::new(MaxMapFeedback::new(4), CrashFeedback::new());
    let mut executor = InMemoryExecutor::new("quiet", Quiet, observers());
    let mut state = new_state();
    state.corpus.add(Testcase::new(GeneralizedInput::new(vec![])));
    let mut stages = (StdMutationalStage::new(Keep, 1), ());
    assert_eq!(fuzzer.fuzz_loop_for(&mut stages, &mut executor, &mut state, 1000), Ok(0));
    assert_eq!(state.corpus.count(), 1);
    assert_eq!(state.solutions.count(), 0);
    assert_eq!(state.executions, 1000);
}

#[test]
fn single_bit_discovery_adds_exactly_one_entry() {
    let mut fuzzer = StdFuzzer::new(MaxMapFeedback::new(4), CrashFeedback::new());
    let mut executor = InMemoryExecutor::new("edge-on-a", EdgeOnA, observers());
    let mut state = new_state();
    state.corpus.add(Testcase::new(GeneralizedInput::new(vec![0])));
    let mut stages = (StdMutationalStage::new(CountingByte { next: 0 }, 1), ());
    for _ in 0..0x41 {
        fuzzer.fuzz_one(&mut stages, &mut executor, &mut state).unwrap();
    }
    assert_eq!(state.corpus.count(), 1);
    fuzzer.fuzz_one(&mut stages, &mut executor, &mut state).unwrap();
    assert_eq!(state.corpus.count(), 2);
    assert_eq!(state.corpus.get(1).unwrap().input.bytes(), b"A");
    for _ in 0..300 {
        fuzzer.fuzz_one(&mut stages, &mut executor, &mut state).unwrap();
    }
    assert_eq!(state.corpus.count(), 2);
    assert_eq!(state.solutions.count(), 0);
}

#[test]
fn crash_capture_files_a_solution() {
    let mut fuzzer = StdFuzzer::new(MaxMapFeedback::new(4), CrashFeedback::new());
    let mut executor = InMemoryExecutor::new("boom", CrashOn(b"BOOM"), observers());
    let mut state = new_state();
    state.corpus.add(Testcase::new(GeneralizedInput::new(b"seed".to_vec())));
    let r = fuzzer.evaluate_input(&mut state, &mut executor, GeneralizedInput::new(b"BOOM".to_vec()));
    let (result, event) = r.unwrap();
    assert_eq!(result, ExecuteInputResult::Solution(0));
    assert!(matches!(event, Some(Event::Objective { objective_size: 1 })));
    assert_eq!(state.solutions.count(), 1);
    assert_eq!(state.solutions.get(0).unwrap().input.bytes(), b"BOOM");
    assert_eq!(state.corpus.count(), 1);
}

#[test]
fn crash_round_trip_after_many_clean_runs() {
    let mut fuzzer = StdFuzzer::new(MaxMapFeedback::new(4), CrashFeedback::new());
    let mut executor = InMemoryExecutor::new("crash", CrashOn(b"CRASH"), observers());
    let mut state = new_state();
    for i in 0..50u8 {
        let r = fuzzer.evaluate_input(&mut state, &mut executor, GeneralizedInput::new(vec![i]));
        assert_eq!(r.unwrap().0, ExecuteInputResult::Discarded);
    }
    let r = fuzzer.evaluate_input(&mut state, &mut executor, GeneralizedInput::new(b"CRASH".to_vec()));
    assert_eq!(r.unwrap().0, ExecuteInputResult::Solution(0));
    assert_eq!(state.solutions.count(), 1);
    assert_eq!(state.solutions.get(0).unwrap().input.bytes(), b"CRASH");
    assert_eq!(state.executions, 51);
}

#[test]
fn each_verdict_files_exactly_one_entry() {
    let mut fuzzer = StdFuzzer::new(MaxMapFeedback::new(4), CrashFeedback::new());
    let mut state = new_state();
    let (r, e) = fuzzer.process_execution(&mut state, GeneralizedInput::new(b"x".to_vec()), &[0, 2, 0, 0], ExitKind::Normal);
    assert_eq!(r, ExecuteInputResult::Corpus(0));
    match e {
        Some(Event::NewTestcase { input, exit_kind, corpus_size }) => {
            assert_eq!(input, b"x".to_vec());
            assert_eq!(exit_kind, ExitKind::Normal);
            assert_eq!(corpus_size, 1);
        }
        _ => panic!("expected a new testcase event"),
    }
    assert_eq!((state.corpus.count(), state.solutions.count()), (1, 0));
    let (r, e) = fuzzer.process_execution(&mut state, GeneralizedInput::new(b"y".to_vec()), &[0, 2, 0, 0], ExitKind::Normal);
    assert_eq!(r, ExecuteInputResult::Discarded);
    assert!(e.is_none());
    assert_eq!((state.corpus.count(), state.solutions.count()), (1, 0));
    let (r, _) = fuzzer.process_execution(&mut state, GeneralizedInput::new(b"z".to_vec()), &[9, 9, 9, 9], ExitKind::Crash);
    assert_eq!(r, ExecuteInputResult::Solution(0));
    assert_eq!((state.corpus.count(), state.solutions.count()), (1, 1));
    assert_eq!(fuzzer.feedback.history(), &[0, 2, 0, 0]);
    assert_eq!(state.executions, 3);
}

#[test]
fn evaluate_rejects_a_map_of_the_wrong_size() {
    let mut fuzzer = StdFuzzer::new(MaxMapFeedback::new(8), CrashFeedback::new());
    let mut executor = InMemoryExecutor::new("quiet", Quiet, observers());
    let mut state = new_state();
    let r = fuzzer.evaluate_input(&mut state, &mut executor, GeneralizedInput::new(vec![1]));
    assert_eq!(r.unwrap_err(), libafl_core::Error::IllegalState);
    assert_eq!(state.executions, 0);
}

#[test]
fn fuzzing_an_empty_corpus_fails() {
    let mut fuzzer = StdFuzzer::new(MaxMapFeedback::new(4), CrashFeedback::new());
    let mut executor = InMemoryExecutor::new("quiet", Quiet, observers());
    let mut state = new_state();
    let mut stages = (StdMutationalStage::new(Keep, 1), ());
    assert_eq!(fuzzer.fuzz_one(&mut stages, &mut executor, &mut state), Err(libafl_core::Error::Empty));
    assert_eq!(fuzzer.fuzz_loop_for(&mut stages, &mut executor, &mut state, 0), Err(libafl_core::Error::IllegalArgument));
}

#[test]
fn interesting_runs_through_the_stage_reach_the_corpus() {
    let mut fuzzer = StdFuzzer::new(MaxMapFeedback::new(4), CrashFeedback::new());
    let mut executor = InMemoryExecutor::new("z", CrashOn(b"never"), observers());
    let mut state = new_state();
    state.corpus.add(Testcase::new(GeneralizedInput::new(b"Zed".to_vec())));
    let mut stages = (StdMutationalStage::new(Keep, 3), ());
    assert_eq!(fuzzer.fuzz_one(&mut stages, &mut executor, &mut state), Ok(0));
    assert_eq!(state.corpus.count(), 2);
    assert_eq!(state.executions, 3);
    assert_eq!(fuzzer.feedback.history(), &[0, 1, 0, 0]);
}

/// Always runs past its time budget, as the timer reports it.
struct Sleeper;

impl Harness<Obs> for Sleeper {
    fn run(&self, _observers: &mut Obs, _bytes: &[u8]) -> ExitKind {
        ExitKind::Timeout
    }
}

#[test]
fn every_timed_out_run_is_a_solution_counted_once() {
    let objective = FeedbackOrFast { first: CrashFeedback::new(), second: TimeoutFeedback::new() };
    let mut fuzzer = StdFuzzer::new(MaxMapFeedback::new(4), objective);
    let mut executor = InMemoryExecutor::new("sleeper", Sleeper, observers());
    let mut state = new_state();
    for i in 0..4u8 {
        let (r, _) = fuzzer.evaluate_input(&mut state, &mut executor, GeneralizedInput::new(vec![i])).unwrap();
        assert_eq!(r, ExecuteInputResult::Solution(i as usize));
        assert_eq!(fuzzer.objective.second.timeouts(), i as u64 + 1);
    }
    assert_eq!(state.corpus.count(), 0);
    assert_eq!(fuzzer.feedback.history(), &[0, 0, 0, 0]);
}

#[test]
fn stages_without_work_or_with_a_bad_index() {
    let mut fuzzer = StdFuzzer::new(MaxMapFeedback::new(4), CrashFeedback::new());
    let mut executor = InMemoryExecutor::new("quiet", Quiet, observers());
    let mut state = new_state();
    state.corpus.add(Testcase::new(GeneralizedInput::new(vec![1])));
    let mut idle = (StdMutationalStage::new(Keep, 0), ());
    assert_eq!(fuzzer.fuzz_one(&mut idle, &mut executor, &mut state), Ok(0));
    assert_eq!(state.executions, 0);
    let mut busy = StdMutationalStage::new(Keep, 2);
    assert_eq!(busy.perform(&mut fuzzer, &mut executor, &mut state, 5), Err(libafl_core::Error::IllegalArgument));
    assert_eq!(state.executions, 0);
    assert_eq!(busy.perform(&mut fuzzer, &mut executor, &mut state, 0), Ok(()));
    assert_eq!(state.executions, 2);
}
