use libafl_core::{Executor, ExitKind, Harness, HasTargetBytes, InMemoryExecutor, Input};

#[derive(Clone, Debug)]
struct NopInput {}

impl Input for NopInput {
    fn wrapped_as_testcase(&mut self) {}
}

impl HasTargetBytes for NopInput {
    fn target_bytes(&self) -> Vec<u8> {
        vec![0]
    }
}

fn test_harness_fn_nop(buf: &[u8]) -> ExitKind {
    println!("Fake exec with buf of len {}", buf.len());
    ExitKind::Normal
}

struct NopHarness;

impl Harness<()> for NopHarness {
    fn run(&self, _observers: &mut (), bytes: &[u8]) -> ExitKind {
        test_harness_fn_nop(bytes)
    }
}

#[test]
fn test_inmem_exec() {
    let mut in_mem_executor = InMemoryExecutor::new("main", NopHarness, ());
    let mut input = NopInput {};
    assert!(in_mem_executor.run_target(&mut input).is_ok());
}

type Edges = (libafl_core::HitcountsMapObserver, ());

/// Checks that the map was reset before it runs, hits edge 0 three times,
/// and reports a timeout.
struct CheckingHarness;

impl Harness<Edges> for CheckingHarness {
    fn run(&self, observers: &mut Edges, bytes: &[u8]) -> ExitKind {
        if observers.0.map().iter().any(|c| *c != 0) || bytes != [0] {
            return ExitKind::Crash;
        }
        for _ in 0..3 {
            observers.0.hit(0);
        }
        ExitKind::Timeout
    }
}

#[test]
fn run_target_prepares_runs_and_concludes() {
    let mut base = libafl_core::StdMapObserver::new("edges".to_string(), 2);
    base.hit(1);
    let observers = (libafl_core::HitcountsMapObserver::new(base), ());
    let mut executor = InMemoryExecutor::new("checking", CheckingHarness, observers);
    assert_eq!(executor.name(), "checking");
    assert_eq!(executor.run_target(&NopInput {}), Ok(ExitKind::Timeout));
    assert_eq!(executor.observers().0.map(), &[4, 0]);
}
