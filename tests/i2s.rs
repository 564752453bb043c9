use libafl_core::{
    i2s_candidates, le_bytes, CmpLogObserver, CmpValues, CrashFeedback, ExitKind, FuzzerState,
    GeneralizedInput, Harness, HasBytesVec, HasCmpLog, I2SStage, InMemoryCorpus, InMemoryExecutor,
    MaxMapFeedback, Observer, StdFuzzer, StdMapObserver, Testcase,
};

type Obs = (StdMapObserver, (CmpLogObserver, ()));

fn le(chunk: &[u8]) -> u64 {
    let mut v = 0u64;
    for (i, b) in chunk.iter().enumerate() {
        v |= (*b as u64) << (8 * i);
    }
    v
}

/// Compares the input with a magic string in three chunks, logging each
/// comparison, and marks the edge counting how many leading chunks matched.
struct Magic;

impl Harness<Obs> for Magic {
    fn run(&self, observers: &mut Obs, bytes: &[u8]) -> ExitKind {
        let magic = b"secretvalue";
        if bytes.len() != magic.len() {
            observers.0.hit(0);
            return ExitKind::Normal;
        }
        let chunks = [(0usize, 8usize), (8, 2), (10, 1)];
        let mut matched = 0;
        let mut still = true;
        for (start, width) in chunks {
            let got = &bytes[start..start + width];
            let want = &magic[start..start + width];
            observers.1 .0.record(le(got), le(want), width);
            if still && got == want {
                matched += 1;
            } else {
                still = false;
            }
        }
        observers.0.hit(matched);
        ExitKind::Normal
    }
}

#[test]
fn candidates_replace_each_occurrence_both_ways() {
    let c = i2s_candidates(&[1, 2, 1], CmpValues { v0: 1, v1: 9, width: 1 });
    assert_eq!(c, vec![vec![9, 2, 1], vec![1, 2, 9]]);
    let c = i2s_candidates(&[0x34, 0x12, 0x34, 0x12], CmpValues { v0: 0xabcd, v1: 0x1234, width: 2 });
    assert_eq!(c, vec![vec![0xcd, 0xab, 0x34, 0x12], vec![0x34, 0x12, 0xcd, 0xab]]);
    assert!(i2s_candidates(&[1, 2], CmpValues { v0: 1, v1: 2, width: 9 }).is_empty());
    assert!(i2s_candidates(&[], CmpValues { v0: 0, v1: 1, width: 0 }).is_empty());
}

#[test]
fn le_bytes_are_least_significant_first() {
    assert_eq!(le_bytes(0x0102_0304_0506_0708, 3), vec![8, 7, 6]);
    assert_eq!(le_bytes(0x0102_0304_0506_0708, 8), vec![8, 7, 6, 5, 4, 3, 2, 1]);
    assert!(le_bytes(5, 0).is_empty());
}

#[test]
fn cmp_log_observer_forgets_the_last_run() {
    let mut o = CmpLogObserver::new();
    o.record(1, 2, 4);
    assert_eq!(o.cmps(), &[CmpValues { v0: 1, v1: 2, width: 4 }]);
    let obs = (StdMapObserver::new("e".to_string(), 1), (o, ()));
    assert_eq!(obs.cmp_log().len(), 1);
    let mut o = obs.1 .0;
    o.pre_exec();
    assert!(o.cmps().is_empty());
}

#[test]
fn i2s_finds_the_magic_string() {
    let mut fuzzer = StdFuzzer::new(MaxMapFeedback::new(4), CrashFeedback::new());
    let observers: Obs = (StdMapObserver::new("edges".to_string(), 4), (CmpLogObserver::new(), ()));
    let mut executor = InMemoryExecutor::new("magic", Magic, observers);
    let mut state = FuzzerState::new(InMemoryCorpus::new(), InMemoryCorpus::new());
    state.corpus.add(Testcase::new(GeneralizedInput::new(b"AAAAAAAAAAA".to_vec())));
    let mut stages = (I2SStage::new(), ());
    let found = |state: &FuzzerState<GeneralizedInput>| {
        (0..state.corpus.count()).any(|i| state.corpus.get(i).unwrap().input.bytes() == b"secretvalue")
    };
    let mut rounds = 0;
    while !found(&state) && rounds < 8 {
        fuzzer.fuzz_one(&mut stages, &mut executor, &mut state).unwrap();
        rounds += 1;
    }
    assert!(found(&state));
    assert!(state.executions <= 200, "took {} executions", state.executions);
}
