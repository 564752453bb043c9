use vstd::prelude::*;

use crate::corpus::Testcase;
use crate::error::Error;
use crate::exit_kind::ExitKind;

verus! {

/// Code a user runs around the judging of each run.
pub trait EvaluationHook<I, S> {
    /// Called after a run on `input`, before the feedbacks judge it, with
    /// the edge map it left and how it ended.
    fn pre_evaluation(&mut self, state: &mut S, input: &I, map: &[u8], exit_kind: &ExitKind);

    /// Called once the run was judged, with the testcase it became, if any.
    fn post_evaluation(&mut self, state: &mut S, testcase: Option<&Testcase<I>>) -> Result<(), Error>;
}

} // verus!
