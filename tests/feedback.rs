use libafl_core::{
    CrashFeedback, ExitKind, Feedback, FeedbackAnd, FeedbackNot, FeedbackOr, FeedbackOrFast,
    MaxMapFeedback, TimeoutFeedback,
};

#[test]
fn max_map_accepts_only_new_maxima() {
    let mut f = MaxMapFeedback::new(3);
    assert!(f.can_judge(&[0, 0, 0]));
    assert!(!f.can_judge(&[0, 0]));
    assert!(f.is_interesting(&[1, 0, 0], ExitKind::Normal));
    assert_eq!(f.novelties(), &[0]);
    assert!(!f.is_interesting(&[1, 0, 0], ExitKind::Normal));
    assert!(f.novelties().is_empty());
    assert!(f.is_interesting(&[2, 0, 4], ExitKind::Crash));
    assert_eq!(f.novelties(), &[0, 2]);
    assert!(!f.is_interesting(&[0, 0, 3], ExitKind::Normal));
    assert_eq!(f.history(), &[2, 0, 4]);
}

#[test]
fn coverage_never_shrinks_over_a_run_sequence() {
    let mut f = MaxMapFeedback::new(2);
    let runs: [[u8; 2]; 5] = [[3, 0], [1, 1], [0, 0], [3, 1], [4, 0]];
    let accepted: [bool; 5] = [true, true, false, false, true];
    let mut before = f.history().to_vec();
    for (run, want) in runs.iter().zip(accepted.iter()) {
        assert_eq!(f.is_interesting(run, ExitKind::Normal), *want);
        let after = f.history().to_vec();
        assert!(before.iter().zip(after.iter()).all(|(b, a)| a >= b));
        before = after;
    }
    assert_eq!(f.history(), &[4, 1]);
}

#[test]
fn timed_out_runs_are_not_judged_by_the_map() {
    let mut f = MaxMapFeedback::new(2);
    assert!(!f.is_interesting(&[5, 5], ExitKind::Timeout));
    assert_eq!(f.history(), &[0, 0]);
    let mut t = TimeoutFeedback::new();
    assert!(t.is_interesting(&[5, 5], ExitKind::Timeout));
    assert!(!t.is_interesting(&[5, 5], ExitKind::Normal));
}

#[test]
fn eager_or_runs_both_sides() {
    let mut f = FeedbackOr { first: CrashFeedback::new(), second: MaxMapFeedback::new(2) };
    assert!(f.is_interesting(&[1, 0], ExitKind::Crash));
    assert_eq!(f.second.history(), &[1, 0]);
}

#[test]
fn fast_or_skips_second_side_when_first_holds() {
    let mut f = FeedbackOrFast { first: CrashFeedback::new(), second: MaxMapFeedback::new(2) };
    assert!(f.is_interesting(&[1, 0], ExitKind::Crash));
    assert_eq!(f.second.history(), &[0, 0]);
    assert!(f.is_interesting(&[1, 0], ExitKind::Normal));
    assert_eq!(f.second.history(), &[1, 0]);
    assert!(!f.is_interesting(&[1, 0], ExitKind::Normal));
}

#[test]
fn and_and_not() {
    let mut f = FeedbackAnd { first: CrashFeedback::new(), second: MaxMapFeedback::new(1) };
    assert!(!f.is_interesting(&[1], ExitKind::Normal));
    assert_eq!(f.second.history(), &[1]);
    assert!(f.is_interesting(&[2], ExitKind::Crash));
    let mut n = FeedbackNot { inner: CrashFeedback::new() };
    assert!(n.is_interesting(&[], ExitKind::Normal));
    assert!(!n.is_interesting(&[], ExitKind::Crash));
}

#[test]
fn timeout_feedback_counts_each_timed_out_run_once() {
    let mut t = TimeoutFeedback::new();
    assert_eq!(t.timeouts(), 0);
    for n in 1..=5u64 {
        assert!(t.is_interesting(&[], ExitKind::Timeout));
        assert_eq!(t.timeouts(), n);
    }
    assert!(!t.is_interesting(&[], ExitKind::Crash));
    assert_eq!(t.timeouts(), 5);
}
