//! Core of an in-process, coverage-guided fuzzer: inputs, observers,
//! feedbacks, corpus bookkeeping, comparison-site ids and the executor.

pub mod ashmem;
pub mod cmplog;
pub mod corpus;
pub mod error;
pub mod events;
pub mod executor;
pub mod exit_kind;
pub mod feedback;
pub mod fuzzer;
pub mod generalized;
pub mod hooks;
pub mod i2s;
pub mod inputs;
pub mod llmp;
pub mod naming;
pub mod observers;
pub mod stages;
pub mod supervisor;

pub use ashmem::{
    poll_action, AshmemClient, AshmemRegistry, AshmemReply, AshmemRequest, PollAction,
    ServedShMemServer, ShMemDescription,
};
pub use cmplog::{
    gen_hashed_cmp_ids, gen_unique_cmp_ids, hash_me, QemuCmpLogChildHelper, QemuCmpLogHelper,
    QemuCmpsMapMetadata, QemuInstrumentationFilter, CMPLOG_MAP_W,
};
pub use corpus::{InMemoryCorpus, QueueScheduler, Testcase};
pub use error::Error;
pub use executor::{Executor, Harness, InMemoryExecutor};
pub use events::{frame, header_length, length_header, unframe, Event};
pub use exit_kind::{exit_kind_from_jump, jump_code, ExitKind};
pub use feedback::{
    CrashFeedback, Feedback, FeedbackAnd, FeedbackNot, FeedbackOr, FeedbackOrFast, MaxMapFeedback,
    TimeoutFeedback,
};
pub use fuzzer::{stats_event, ExecuteInputResult, FuzzerState, StdFuzzer};
pub use generalized::{GeneralizedInput, GeneralizedItem};
pub use hooks::EvaluationHook;
pub use i2s::{i2s_candidates, le_bytes, CmpLogObserver, CmpValues, HasCmpLog, I2SStage};
pub use inputs::{HasBytesVec, HasLen, HasTargetBytes, Input};
pub use llmp::{LlmpMsg, LlmpReceiver, LlmpSender};
pub use observers::{
    classify_count, classify_counts, HasEdgeMap, HitcountsMapObserver, Observer, ObserversTuple,
    StdMapObserver,
};
pub use stages::{MutationResult, Mutator, Stage, StagesTuple, StdMutationalStage};
pub use supervisor::{on_child_exit, ChildExit, SupervisorAction};
