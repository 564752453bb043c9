use vstd::prelude::*;

use crate::error::Error;
use crate::executor::{Executor, Harness, InMemoryExecutor};
use crate::exit_kind::ExitKind;
use crate::feedback::Feedback;
use crate::fuzzer::{lemma_prefix_step, FuzzerState, StdFuzzer};
use crate::generalized::{copy_bytes, GeneralizedInput};
use crate::inputs::HasTargetBytes;
use crate::observers::{HasEdgeMap, Observer, ObserversTuple};
use crate::stages::Stage;

verus! {

/// The two operands of one comparison the target made, and their width in
/// bytes.
#[derive(Clone, Copy, Debug, PartialEq, Eq, Structural)]
pub struct CmpValues {
    pub v0: u64,
    pub v1: u64,
    pub width: usize,
}

/// Records the comparisons of one run, in the order they were made.
#[derive(Debug)]
pub struct CmpLogObserver {
    cmps: Vec<CmpValues>,
}

impl View for CmpLogObserver {
    type V = Seq<CmpValues>;

    closed spec fn view(&self) -> Seq<CmpValues> {
        self.cmps@
    }
}

impl CmpLogObserver {
    /// An observer with no comparison recorded.
    pub fn new() -> (r: Self)
        ensures
            r@.len() == 0,
    {
        CmpLogObserver { cmps: Vec::new() }
    }

    /// Records a comparison of `v0` with `v1`, `width` bytes wide.
    pub fn record(&mut self, v0: u64, v1: u64, width: usize)
        ensures
            final(self)@ == old(self)@.push(CmpValues { v0, v1, width }),
    {
        self.cmps.push(CmpValues { v0, v1, width });
    }

    /// The comparisons recorded since the run began.
    pub fn cmps(&self) -> (r: &[CmpValues])
        ensures
            r@ == self@,
    {
        self.cmps.as_slice()
    }
}

impl Observer for CmpLogObserver {
    open spec fn reset_to(&self, after: Self) -> bool {
        after@.len() == 0
    }

    open spec fn concluded_to(&self, after: Self, exit_kind: ExitKind) -> bool {
        after@ == self@
    }

    /// Forgets the comparisons of the last run.
    fn pre_exec(&mut self)
        ensures
            final(self)@.len() == 0,
    {
        self.cmps = Vec::new();
    }

    fn post_exec(&mut self, exit_kind: ExitKind)
        ensures
            final(self)@ == old(self)@,
    {
    }
}

/// Observers that log comparisons.
pub trait HasCmpLog {
    /// The comparisons logged.
    fn cmp_log(&self) -> &[CmpValues];
}

impl HasCmpLog for (CmpLogObserver, ()) {
    fn cmp_log(&self) -> (r: &[CmpValues])
        ensures
            r@ == self.0@,
    {
        self.0.cmps()
    }
}

/// A list of observers whose comparison log comes after its first member.
impl<Head, Tail: HasCmpLog> HasCmpLog for (Head, Tail) {
    fn cmp_log(&self) -> &[CmpValues] {
        self.1.cmp_log()
    }
}

/// The `w` lowest bytes of `v`, least significant first, as the target
/// holds them in memory.
pub open spec fn le_seq(v: u64, w: nat) -> Seq<u8> {
    Seq::new(w, |i: int| ((v >> (8 * i) as u64) & 0xff) as u8)
}

/// Whether `pat` stands in `input` at position `p`.
pub open spec fn occurs_at(input: Seq<u8>, p: int, pat: Seq<u8>) -> bool {
    0 <= p && p + pat.len() <= input.len() && input.subrange(p, p + pat.len()) == pat
}

/// `input` with the bytes at `p` replaced by `to`.
pub open spec fn replaced_at(input: Seq<u8>, p: int, to: Seq<u8>) -> Seq<u8> {
    input.subrange(0, p) + to + input.subrange(p + to.len(), input.len() as int)
}

/// For each position below `n` where `from` occurs in `input`, in increasing
/// order: `input` with `to` in its place there.
pub open spec fn replacements_below(input: Seq<u8>, from: Seq<u8>, to: Seq<u8>, n: nat) -> Seq<
    Seq<u8>,
>
    decreases n,
{
    if n == 0 {
        Seq::empty()
    } else {
        let p = n - 1;
        let earlier = replacements_below(input, from, to, p as nat);
        if occurs_at(input, p, from) {
            earlier.push(replaced_at(input, p, to))
        } else {
            earlier
        }
    }
}

/// The inputs to try for one comparison: each place where the first operand
/// occurs, replaced by the second, then each place where the second occurs,
/// replaced by the first.
pub open spec fn i2s_spec(input: Seq<u8>, cmp: CmpValues) -> Seq<Seq<u8>> {
    let a = le_seq(cmp.v0, cmp.width as nat);
    let b = le_seq(cmp.v1, cmp.width as nat);
    replacements_below(input, a, b, input.len()) + replacements_below(input, b, a, input.len())
}

/// The `w` lowest bytes of `v`, least significant first.
pub fn le_bytes(v: u64, w: usize) -> (r: Vec<u8>)
    requires
        w <= 8,
    ensures
        r@ == le_seq(v, w as nat),
{
    let mut r: Vec<u8> = Vec::new();
    let mut i: usize = 0;
    while i < w
        invariant
            i <= w <= 8,
            r@ == le_seq(v, i as nat),
        decreases w - i,
    {
        let b = ((v >> (8 * i) as u64) & 0xff) as u8;
        r.push(b);
        i = i + 1;
        assert(r@ =~= le_seq(v, i as nat));
    }
    r
}

/// Whether `pat` stands in `input` at position `p`.
fn bytes_at(input: &[u8], p: usize, pat: &[u8]) -> (r: bool)
    ensures
        r == occurs_at(input@, p as int, pat@),
{
    let n = input.len();
    if p > n || pat.len() > n - p {
        return false;
    }
    let mut i: usize = 0;
    while i < pat.len()
        invariant
            n == input@.len(),
            p + pat@.len() <= input@.len(),
            i <= pat@.len(),
            forall|j: int| 0 <= j < i ==> input@[p + j] == pat@[j],
        decreases pat@.len() - i,
    {
        if input[p + i] != pat[i] {
            assert(input@.subrange(p as int, p + pat@.len())[i as int] != pat@[i as int]);
            return false;
        }
        i = i + 1;
    }
    assert(input@.subrange(p as int, p + pat@.len()) =~= pat@);
    true
}

/// `input` with the bytes at `p` replaced by `to`.
fn replace_bytes(input: &[u8], p: usize, to: &[u8]) -> (r: Vec<u8>)
    requires
        p + to@.len() <= input@.len(),
    ensures
        r@ == replaced_at(input@, p as int, to@),
{
    let mut r: Vec<u8> = Vec::new();
    let mut i: usize = 0;
    while i < input.len()
        invariant
            p + to@.len() <= input@.len(),
            i <= input@.len(),
            r@.len() == i,
            forall|j: int|
                0 <= j < i ==> r@[j] == (if p <= j < p + to@.len() {
                    to@[j - p]
                } else {
                    input@[j]
                }),
        decreases input@.len() - i,
    {
        if p <= i && i < p + to.len() {
            r.push(to[i - p]);
        } else {
            r.push(input[i]);
        }
        i = i + 1;
    }
    assert(r@ =~= replaced_at(input@, p as int, to@));
    r
}

/// Appends to `out`, for each place where `from` occurs in `input`, in
/// increasing order, `input` with `to` in its place there.
fn push_replacements(out: &mut Vec<Vec<u8>>, input: &[u8], from: &[u8], to: &[u8])
    requires
        from@.len() == to@.len(),
    ensures
        deep(final(out)@) == deep(old(out)@) + replacements_below(input@, from@, to@, input@.len()),
{
    let ghost start = deep(old(out)@);
    let mut p: usize = 0;
    while p < input.len()
        invariant
            from@.len() == to@.len(),
            p <= input@.len(),
            deep(out@) == start + replacements_below(input@, from@, to@, p as nat),
        decreases input@.len() - p,
    {
        if bytes_at(input, p, from) {
            let candidate = replace_bytes(input, p, to);
            let ghost before = out@;
            out.push(candidate);
            assert(deep(out@) =~= deep(before).push(candidate@));
        }
        p = p + 1;
        assert(deep(out@) =~= start + replacements_below(input@, from@, to@, p as nat));
    }
}

/// The byte strings held by a sequence of vectors.
pub open spec fn deep(s: Seq<Vec<u8>>) -> Seq<Seq<u8>> {
    s.map_values(|v: Vec<u8>| v@)
}

/// The inputs to try for `cmp`: `input` with each occurrence of the first
/// operand's bytes replaced by the second's, then the other way round.
/// Operands wider than eight bytes give no candidate.
pub fn i2s_candidates(input: &[u8], cmp: CmpValues) -> (r: Vec<Vec<u8>>)
    ensures
        cmp.width <= 8 ==> deep(r@) == i2s_spec(input@, cmp),
        cmp.width > 8 ==> r@.len() == 0,
{
    let mut out: Vec<Vec<u8>> = Vec::new();
    if cmp.width > 8 {
        return out;
    }
    let a = le_bytes(cmp.v0, cmp.width);
    let b = le_bytes(cmp.v1, cmp.width);
    assert(deep(out@) =~= Seq::<Seq<u8>>::empty());
    push_replacements(&mut out, input, a.as_slice(), b.as_slice());
    push_replacements(&mut out, input, b.as_slice(), a.as_slice());
    assert(deep(out@) =~= i2s_spec(input@, cmp));
    out
}

/// Input-to-state replacement: runs a corpus entry once to log its
/// comparisons, without judging the run, then runs and files every
/// candidate of every logged comparison.
#[derive(Debug, Clone, Copy, PartialEq, Eq, Structural)]
pub struct I2SStage {}

impl I2SStage {
    pub fn new() -> (r: Self) {
        I2SStage {  }
    }
}

impl<
    F: Feedback,
    O: Feedback,
    H: Harness<OT>,
    OT: ObserversTuple + HasEdgeMap + HasCmpLog,
> Stage<InMemoryExecutor<H, OT>, StdFuzzer<F, O>, FuzzerState<GeneralizedInput>> for I2SStage {
    /// The corpus and the solutions only grow. Where `idx` names no entry,
    /// the result is `IllegalArgument` and nothing changes. Any other error
    /// is `IllegalState`, from a run whose edge map did not fit the feedbacks.
    open spec fn performed(
        &self,
        next: Self,
        z0: StdFuzzer<F, O>,
        z1: StdFuzzer<F, O>,
        e0: InMemoryExecutor<H, OT>,
        e1: InMemoryExecutor<H, OT>,
        s0: FuzzerState<GeneralizedInput>,
        s1: FuzzerState<GeneralizedInput>,
        idx: usize,
        r: Result<(), Error>,
    ) -> bool {
        let bad = idx >= s0.corpus@.entries.len();
        &&& s0.corpus@.entries.is_prefix_of(s1.corpus@.entries)
        &&& s0.solutions@.entries.is_prefix_of(s1.solutions@.entries)
        &&& (bad ==> r == Err::<(), Error>(Error::IllegalArgument) && z1 == z0 && e1 == e0 && s1
            == s0)
        &&& (r matches Err(e) ==> e == Error::IllegalState || (e == Error::IllegalArgument && bad))
    }

    fn perform(
        &mut self,
        fuzzer: &mut StdFuzzer<F, O>,
        executor: &mut InMemoryExecutor<H, OT>,
        state: &mut FuzzerState<GeneralizedInput>,
        corpus_idx: usize,
    ) -> (r: Result<(), Error>) {
        assert(old(state).corpus@.entries.is_prefix_of(old(state).corpus@.entries)) by {
            assert(old(state).corpus@.entries =~= old(state).corpus@.entries.subrange(
                0,
                old(state).corpus@.entries.len() as int,
            ));
        }
        assert(old(state).solutions@.entries.is_prefix_of(old(state).solutions@.entries)) by {
            assert(old(state).solutions@.entries =~= old(state).solutions@.entries.subrange(
                0,
                old(state).solutions@.entries.len() as int,
            ));
        }
        let bytes = match state.corpus.get(corpus_idx) {
            Ok(testcase) => testcase.input.target_bytes(),
            Err(e) => return Err(e),
        };
        let traced = GeneralizedInput::new(copy_bytes(bytes.as_slice()));
        match executor.run_target(&traced) {
            Ok(_) => {},
            Err(e) => return Err(e),
        }
        let log = executor.observers().cmp_log();
        let mut cmps: Vec<CmpValues> = Vec::new();
        let mut k: usize = 0;
        while k < log.len()
            invariant
                corpus_idx < old(state).corpus@.entries.len(),
                *state == *old(state),
            decreases log@.len() - k,
        {
            cmps.push(log[k]);
            k = k + 1;
        }
        let mut c: usize = 0;
        while c < cmps.len()
            invariant
                corpus_idx < old(state).corpus@.entries.len(),
                old(state).corpus@.entries.is_prefix_of(state.corpus@.entries),
                old(state).solutions@.entries.is_prefix_of(state.solutions@.entries),
            decreases cmps@.len() - c,
        {
            let candidates = i2s_candidates(bytes.as_slice(), cmps[c]);
            let mut j: usize = 0;
            while j < candidates.len()
                invariant
                    corpus_idx < old(state).corpus@.entries.len(),
                    old(state).corpus@.entries.is_prefix_of(state.corpus@.entries),
                    old(state).solutions@.entries.is_prefix_of(state.solutions@.entries),
                decreases candidates@.len() - j,
            {
                let input = GeneralizedInput::new(copy_bytes(candidates[j].as_slice()));
                let ghost corpus_before = state.corpus@.entries;
                let ghost solutions_before = state.solutions@.entries;
                match fuzzer.evaluate_input(state, executor, input) {
                    Ok(_) => {},
                    Err(e) => return Err(e),
                }
                proof {
                    lemma_prefix_step(old(state).corpus@.entries, corpus_before, state.corpus@.entries);
                    lemma_prefix_step(
                        old(state).solutions@.entries,
                        solutions_before,
                        state.solutions@.entries,
                    );
                }
                j = j + 1;
            }
            c = c + 1;
        }
        Ok(())
    }
}

} // verus!
