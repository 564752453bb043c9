use vstd::prelude::*;

use crate::error::Error;
use crate::exit_kind::ExitKind;
use crate::inputs::HasTargetBytes;
use crate::observers::ObserversTuple;

verus! {

/// Runs the target on inputs.
pub trait Executor<I>: Sized {
    /// Whether `after` is this executor, and `r` what it returned, once it
    /// ran the target on `input`.
    spec fn ran_on(&self, after: Self, input: I, r: Result<ExitKind, Error>) -> bool;

    /// Runs the target once on `input` and tells how the run ended.
    fn run_target(&mut self, input: &I) -> (r: Result<ExitKind, Error>)
        ensures
            old(self).ran_on(*final(self), *input, r),
    ;
}

/// The code under test, wrapped: it gets the observers, which it fills as
/// the target runs, and the input's bytes, and tells how the run ended.
pub trait Harness<OT> {
    /// Whether a run on `bytes` may take the observers from `before` to
    /// `after` and end as `exit_kind`. A harness that states nothing admits
    /// any run.
    open spec fn ran(&self, before: OT, after: OT, bytes: Seq<u8>, exit_kind: ExitKind) -> bool {
        true
    }

    /// Runs the target once on `bytes`.
    fn run(&self, observers: &mut OT, bytes: &[u8]) -> (r: ExitKind)
        ensures
            self.ran(*old(observers), *final(observers), bytes@, r),
    ;
}

/// Runs a harness function in this process: observers are prepared, the
/// harness gets the input's target bytes, and the observers are told how the
/// run ended. Surviving a fatal signal inside the harness is the harness
/// wrapper's part: it turns the signal into an exit kind.
pub struct InMemoryExecutor<H, OT> {
    harness: H,
    observers: OT,
    name: String,
}

impl<H: Harness<OT>, OT: ObserversTuple> InMemoryExecutor<H, OT> {
    /// The harness function.
    pub closed spec fn harness_fn(&self) -> H {
        self.harness
    }

    /// The observers.
    pub closed spec fn observers_view(&self) -> OT {
        self.observers
    }

    /// An executor named `name` that runs `harness_fn` and drives `observers`.
    pub fn new(name: &str, harness_fn: H, observers: OT) -> (r: Self)
        ensures
            r.harness_fn() == harness_fn,
            r.observers_view() == observers,
            r.name_view() == name@,
    {
        InMemoryExecutor { harness: harness_fn, observers, name: name.to_string() }
    }

    /// The executor's name.
    pub closed spec fn name_view(&self) -> Seq<char> {
        self.name@
    }

    /// The executor's name.
    pub fn name(&self) -> (r: &str)
        ensures
            r@ == self.name_view(),
    {
        self.name.as_str()
    }

    /// The observers.
    pub fn observers(&self) -> (r: &OT)
        ensures
            *r == self.observers_view(),
    {
        &self.observers
    }

    /// The observers, for change in place.
    pub fn observers_mut(&mut self) -> (r: &mut OT)
        ensures
            *r == old(self).observers_view(),
            final(self).observers_view() == *final(r),
            final(self).harness_fn() == old(self).harness_fn(),
            final(self).name_view() == old(self).name_view(),
    {
        &mut self.observers
    }
}

impl<I: HasTargetBytes, H: Harness<OT>, OT: ObserversTuple> Executor<I> for InMemoryExecutor<H, OT> {
    /// The harness and the name stay; every observer's `pre_exec` ran, then
    /// the harness, once, on the input's target bytes, then every
    /// observer's `post_exec` with the exit kind the harness returned, which
    /// is the result.
    open spec fn ran_on(&self, after: Self, input: I, r: Result<ExitKind, Error>) -> bool {
        &&& after.harness_fn() == self.harness_fn()
        &&& after.name_view() == self.name_view()
        &&& r matches Ok(k) && exists|bytes: Seq<u8>, prepared: OT, ran: OT|
            #[trigger] self.harness_fn().ran(prepared, ran, bytes, k) && input.target_is(bytes)
                && self.observers_view().prepared(prepared) && ran.concluded(
                after.observers_view(),
                k,
            )
    }

    fn run_target(&mut self, input: &I) -> (r: Result<ExitKind, Error>) {
        let bytes = input.target_bytes();
        let s = bytes.as_slice();
        self.observers.pre_exec_all();
        let ghost prepared = self.observers;
        let ret = self.harness.run(&mut self.observers, s);
        let ghost ran = self.observers;
        self.observers.post_exec_all(ret);
        assert(old(self).harness_fn().ran(prepared, ran, s@, ret));
        Ok(ret)
    }
}

} // verus!
