use vstd::prelude::*;

use crate::corpus::Testcase;
use crate::exit_kind::ExitKind;

verus! {

/// Judges, after each run, whether the input is worth keeping, from the edge
/// map the run left and how it ended. A feedback may keep state across runs.
pub trait Feedback: Sized {
    /// Whether the feedback can judge a run that left `map`.
    spec fn ready(&self, map: Seq<u8>) -> bool;

    /// The verdict on a run that left `map` and ended as `exit_kind`.
    spec fn verdict(&self, map: Seq<u8>, exit_kind: ExitKind) -> bool;

    /// Whether `next` is this feedback after it judged that run.
    spec fn judged(&self, next: Self, map: Seq<u8>, exit_kind: ExitKind) -> bool;

    /// Whether the feedback can judge a run that left `map`.
    fn can_judge(&self, map: &[u8]) -> (r: bool)
        ensures
            r == self.ready(map@),
    ;

    /// Judges a run, and records what the feedback keeps of it.
    fn is_interesting(&mut self, map: &[u8], exit_kind: ExitKind) -> (r: bool)
        requires
            old(self).ready(map@),
        ensures
            r == old(self).verdict(map@, exit_kind),
            old(self).judged(*final(self), map@, exit_kind),
            final(self).ready(map@),
    ;

    /// Adds what this feedback learned from the last run it judged to the
    /// testcase made of that run's input.
    fn append_metadata<I>(&self, testcase: &mut Testcase<I>)
        ensures
            final(testcase).input == old(testcase).input,
            final(testcase).parent_id == old(testcase).parent_id,
    {
    }
}

/// The cell-wise maximum of `h` and `m`, over the cells of `h`.
pub open spec fn max_map(h: Seq<u8>, m: Seq<u8>) -> Seq<u8> {
    Seq::new(h.len(), |i: int| if m[i] > h[i] { m[i] } else { h[i] })
}

/// Whether some cell of `m` holds more than the same cell of `h`.
pub open spec fn exceeds(h: Seq<u8>, m: Seq<u8>) -> bool {
    exists|i: int| 0 <= i < h.len() && #[trigger] m[i] > h[i]
}

/// The cells below `n` where `m` holds more than `h`, in increasing order.
pub open spec fn novel_below(h: Seq<u8>, m: Seq<u8>, n: nat) -> Seq<usize>
    decreases n,
{
    if n == 0 {
        Seq::empty()
    } else {
        let k = (n - 1) as nat;
        let earlier = novel_below(h, m, k);
        if m[k as int] > h[k as int] {
            earlier.push(k as usize)
        } else {
            earlier
        }
    }
}

/// The cells where `m` holds more than `h`, in increasing order.
pub open spec fn novel_indices(h: Seq<u8>, m: Seq<u8>) -> Seq<usize> {
    novel_below(h, m, h.len())
}

/// Keeps the highest value ever seen in each cell of the edge map; a run is
/// interesting when it raises one of them. Timed-out runs are not judged.
#[derive(Debug)]
pub struct MaxMapFeedback {
    history: Vec<u8>,
    novelties: Vec<usize>,
}

/// What a `MaxMapFeedback` holds.
pub struct MaxMapView {
    /// The highest value seen so far in each cell.
    pub history: Seq<u8>,
    /// The cells the last judged run raised.
    pub novelties: Seq<usize>,
}

impl View for MaxMapFeedback {
    type V = MaxMapView;

    closed spec fn view(&self) -> MaxMapView {
        MaxMapView { history: self.history@, novelties: self.novelties@ }
    }
}

impl MaxMapFeedback {
    /// A feedback for edge maps of `map_size` cells, none seen yet.
    pub fn new(map_size: usize) -> (r: Self)
        ensures
            r@.history == Seq::new(map_size as nat, |i: int| 0u8),
            r@.novelties.len() == 0,
    {
        let mut history: Vec<u8> = Vec::new();
        let mut i: usize = 0;
        while i < map_size
            invariant
                i <= map_size,
                history@ == Seq::new(i as nat, |j: int| 0u8),
            decreases map_size - i,
        {
            history.push(0);
            i = i + 1;
            assert(history@ =~= Seq::new(i as nat, |j: int| 0u8));
        }
        MaxMapFeedback { history, novelties: Vec::new() }
    }

    /// The highest value seen so far in each cell.
    pub fn history(&self) -> (r: &[u8])
        ensures
            r@ == self@.history,
    {
        self.history.as_slice()
    }

    /// The cells the last judged run raised, in increasing order.
    pub fn novelties(&self) -> (r: &[usize])
        ensures
            r@ == self@.novelties,
    {
        self.novelties.as_slice()
    }
}

impl Feedback for MaxMapFeedback {
    open spec fn ready(&self, map: Seq<u8>) -> bool {
        map.len() == self@.history.len()
    }

    open spec fn verdict(&self, map: Seq<u8>, exit_kind: ExitKind) -> bool {
        exit_kind != ExitKind::Timeout && exceeds(self@.history, map)
    }

    open spec fn judged(&self, next: Self, map: Seq<u8>, exit_kind: ExitKind) -> bool {
        if exit_kind == ExitKind::Timeout {
            next@ == self@
        } else {
            &&& next@.history == max_map(self@.history, map)
            &&& next@.novelties == novel_indices(self@.history, map)
        }
    }

    fn can_judge(&self, map: &[u8]) -> (r: bool) {
        map.len() == self.history.len()
    }

    fn is_interesting(&mut self, map: &[u8], exit_kind: ExitKind) -> (r: bool) {
        if exit_kind == ExitKind::Timeout {
            return false;
        }
        let ghost h0 = self.history@;
        let mut novelties: Vec<usize> = Vec::new();
        let mut interesting = false;
        let mut i: usize = 0;
        while i < map.len()
            invariant
                map@.len() == h0.len(),
                self.history@.len() == h0.len(),
                i <= h0.len(),
                forall|j: int| 0 <= j < i ==> self.history@[j] == max_map(h0, map@)[j],
                forall|j: int| i <= j < h0.len() ==> self.history@[j] == h0[j],
                novelties@ == novel_below(h0, map@, i as nat),
                interesting == exists|j: int| 0 <= j < i && #[trigger] map@[j] > h0[j],
            decreases h0.len() - i,
        {
            if map[i] > self.history[i] {
                self.history[i] = map[i];
                novelties.push(i);
                interesting = true;
            }
            i = i + 1;
        }
        assert(self.history@ =~= max_map(h0, map@));
        self.novelties = novelties;
        interesting
    }

    /// Records the cells the last run raised.
    fn append_metadata<I>(&self, testcase: &mut Testcase<I>)
        ensures
            final(testcase).novelties@ == self@.novelties,
            final(testcase).input == old(testcase).input,
            final(testcase).parent_id == old(testcase).parent_id,
    {
        let mut novelties: Vec<usize> = Vec::new();
        let mut i: usize = 0;
        while i < self.novelties.len()
            invariant
                i <= self.novelties@.len(),
                novelties@ == self.novelties@.subrange(0, i as int),
            decreases self.novelties@.len() - i,
        {
            novelties.push(self.novelties[i]);
            i = i + 1;
        }
        assert(novelties@ =~= self.novelties@);
        testcase.novelties = novelties;
    }
}

/// Holds when the run crashed.
#[derive(Debug, Clone, Copy, PartialEq, Eq, Structural)]
pub struct CrashFeedback {}

impl CrashFeedback {
    pub fn new() -> (r: Self) {
        CrashFeedback {  }
    }
}

impl Feedback for CrashFeedback {
    open spec fn ready(&self, map: Seq<u8>) -> bool {
        true
    }

    open spec fn verdict(&self, map: Seq<u8>, exit_kind: ExitKind) -> bool {
        exit_kind == ExitKind::Crash
    }

    open spec fn judged(&self, next: Self, map: Seq<u8>, exit_kind: ExitKind) -> bool {
        next == *self
    }

    fn can_judge(&self, map: &[u8]) -> (r: bool) {
        true
    }

    fn is_interesting(&mut self, map: &[u8], exit_kind: ExitKind) -> (r: bool) {
        exit_kind == ExitKind::Crash
    }
}

/// Holds when the run timed out, and counts the timed-out runs it judged.
#[derive(Debug, Clone, Copy, PartialEq, Eq, Structural)]
pub struct TimeoutFeedback {
    timeouts: u64,
}

impl TimeoutFeedback {
    /// A feedback that has judged no timed-out run yet.
    pub fn new() -> (r: Self)
        ensures
            r.count() == 0,
    {
        TimeoutFeedback { timeouts: 0 }
    }

    /// The number of timed-out runs judged, staying at the largest `u64`.
    pub closed spec fn count(&self) -> u64 {
        self.timeouts
    }

    /// The number of timed-out runs judged.
    pub fn timeouts(&self) -> (r: u64)
        ensures
            r == self.count(),
    {
        self.timeouts
    }
}

impl Feedback for TimeoutFeedback {
    open spec fn ready(&self, map: Seq<u8>) -> bool {
        true
    }

    open spec fn verdict(&self, map: Seq<u8>, exit_kind: ExitKind) -> bool {
        exit_kind == ExitKind::Timeout
    }

    open spec fn judged(&self, next: Self, map: Seq<u8>, exit_kind: ExitKind) -> bool {
        if exit_kind == ExitKind::Timeout && self.count() < u64::MAX {
            next.count() == self.count() + 1
        } else {
            next == *self
        }
    }

    fn can_judge(&self, map: &[u8]) -> (r: bool) {
        true
    }

    fn is_interesting(&mut self, map: &[u8], exit_kind: ExitKind) -> (r: bool) {
        if exit_kind == ExitKind::Timeout {
            if self.timeouts < u64::MAX {
                self.timeouts = self.timeouts + 1;
            }
            true
        } else {
            false
        }
    }
}

/// Holds when either side holds. Both sides always judge the run, so that
/// both keep what they learn from it.
#[derive(Debug)]
pub struct FeedbackOr<A, B> {
    pub first: A,
    pub second: B,
}

impl<A: Feedback, B: Feedback> Feedback for FeedbackOr<A, B> {
    open spec fn ready(&self, map: Seq<u8>) -> bool {
        self.first.ready(map) && self.second.ready(map)
    }

    open spec fn verdict(&self, map: Seq<u8>, exit_kind: ExitKind) -> bool {
        self.first.verdict(map, exit_kind) || self.second.verdict(map, exit_kind)
    }

    open spec fn judged(&self, next: Self, map: Seq<u8>, exit_kind: ExitKind) -> bool {
        &&& self.first.judged(next.first, map, exit_kind)
        &&& self.second.judged(next.second, map, exit_kind)
    }

    fn can_judge(&self, map: &[u8]) -> (r: bool) {
        self.first.can_judge(map) && self.second.can_judge(map)
    }

    fn is_interesting(&mut self, map: &[u8], exit_kind: ExitKind) -> (r: bool) {
        let a = self.first.is_interesting(map, exit_kind);
        let b = self.second.is_interesting(map, exit_kind);
        a || b
    }

    fn append_metadata<I>(&self, testcase: &mut Testcase<I>) {
        self.first.append_metadata(testcase);
        self.second.append_metadata(testcase);
    }
}

/// Holds when either side holds. The second side judges the run only when
/// the first does not hold.
#[derive(Debug)]
pub struct FeedbackOrFast<A, B> {
    pub first: A,
    pub second: B,
}

impl<A: Feedback, B: Feedback> Feedback for FeedbackOrFast<A, B> {
    open spec fn ready(&self, map: Seq<u8>) -> bool {
        self.first.ready(map) && self.second.ready(map)
    }

    open spec fn verdict(&self, map: Seq<u8>, exit_kind: ExitKind) -> bool {
        self.first.verdict(map, exit_kind) || self.second.verdict(map, exit_kind)
    }

    open spec fn judged(&self, next: Self, map: Seq<u8>, exit_kind: ExitKind) -> bool {
        &&& self.first.judged(next.first, map, exit_kind)
        &&& if self.first.verdict(map, exit_kind) {
            next.second == self.second
        } else {
            self.second.judged(next.second, map, exit_kind)
        }
    }

    fn can_judge(&self, map: &[u8]) -> (r: bool) {
        self.first.can_judge(map) && self.second.can_judge(map)
    }

    fn is_interesting(&mut self, map: &[u8], exit_kind: ExitKind) -> (r: bool) {
        let a = self.first.is_interesting(map, exit_kind);
        if a {
            true
        } else {
            self.second.is_interesting(map, exit_kind)
        }
    }

    fn append_metadata<I>(&self, testcase: &mut Testcase<I>) {
        self.first.append_metadata(testcase);
        self.second.append_metadata(testcase);
    }
}

/// Holds when both sides hold. Both sides always judge the run.
#[derive(Debug)]
pub struct FeedbackAnd<A, B> {
    pub first: A,
    pub second: B,
}

impl<A: Feedback, B: Feedback> Feedback for FeedbackAnd<A, B> {
    open spec fn ready(&self, map: Seq<u8>) -> bool {
        self.first.ready(map) && self.second.ready(map)
    }

    open spec fn verdict(&self, map: Seq<u8>, exit_kind: ExitKind) -> bool {
        self.first.verdict(map, exit_kind) && self.second.verdict(map, exit_kind)
    }

    open spec fn judged(&self, next: Self, map: Seq<u8>, exit_kind: ExitKind) -> bool {
        &&& self.first.judged(next.first, map, exit_kind)
        &&& self.second.judged(next.second, map, exit_kind)
    }

    fn can_judge(&self, map: &[u8]) -> (r: bool) {
        self.first.can_judge(map) && self.second.can_judge(map)
    }

    fn is_interesting(&mut self, map: &[u8], exit_kind: ExitKind) -> (r: bool) {
        let a = self.first.is_interesting(map, exit_kind);
        let b = self.second.is_interesting(map, exit_kind);
        a && b
    }

    fn append_metadata<I>(&self, testcase: &mut Testcase<I>) {
        self.first.append_metadata(testcase);
        self.second.append_metadata(testcase);
    }
}

/// Holds when the inner feedback does not.
#[derive(Debug)]
pub struct FeedbackNot<A> {
    pub inner: A,
}

impl<A: Feedback> Feedback for FeedbackNot<A> {
    open spec fn ready(&self, map: Seq<u8>) -> bool {
        self.inner.ready(map)
    }

    open spec fn verdict(&self, map: Seq<u8>, exit_kind: ExitKind) -> bool {
        !self.inner.verdict(map, exit_kind)
    }

    open spec fn judged(&self, next: Self, map: Seq<u8>, exit_kind: ExitKind) -> bool {
        self.inner.judged(next.inner, map, exit_kind)
    }

    fn can_judge(&self, map: &[u8]) -> (r: bool) {
        self.inner.can_judge(map)
    }

    fn is_interesting(&mut self, map: &[u8], exit_kind: ExitKind) -> (r: bool) {
        let a = self.inner.is_interesting(map, exit_kind);
        !a
    }

    fn append_metadata<I>(&self, testcase: &mut Testcase<I>) {
        self.inner.append_metadata(testcase);
    }
}

/// The maxima kept after judging the runs `maps` in order, none of them
/// timed out, starting from the maxima `h`.
pub open spec fn history_after(h: Seq<u8>, maps: Seq<Seq<u8>>) -> Seq<u8>
    decreases maps.len(),
{
    if maps.len() == 0 {
        h
    } else {
        max_map(history_after(h, maps.drop_last()), maps.last())
    }
}

/// Whether run `k` of `maps` is accepted when the runs are judged in order
/// from the maxima `h`.
pub open spec fn accepted_at(h: Seq<u8>, maps: Seq<Seq<u8>>, k: int) -> bool {
    exceeds(history_after(h, maps.subrange(0, k)), maps[k])
}

/// Whether every map of `maps` has as many cells as `h`.
pub open spec fn maps_fit(h: Seq<u8>, maps: Seq<Seq<u8>>) -> bool {
    forall|k: int| 0 <= k < maps.len() ==> (#[trigger] maps[k]).len() == h.len()
}

proof fn lemma_history_step(h: Seq<u8>, maps: Seq<Seq<u8>>, k: int)
    requires
        0 <= k < maps.len(),
    ensures
        history_after(h, maps.subrange(0, k + 1)) == max_map(
            history_after(h, maps.subrange(0, k)),
            maps[k],
        ),
{
    assert(maps.subrange(0, k + 1).drop_last() =~= maps.subrange(0, k));
}

proof fn lemma_history_len(h: Seq<u8>, maps: Seq<Seq<u8>>, k: int)
    requires
        0 <= k <= maps.len(),
    ensures
        history_after(h, maps.subrange(0, k)).len() == h.len(),
    decreases k,
{
    if k == 0 {
        assert(maps.subrange(0, 0) =~= Seq::<Seq<u8>>::empty());
    } else {
        lemma_history_len(h, maps, k - 1);
        lemma_history_step(h, maps, k - 1);
    }
}

/// Cell `i` of the maxima after `k` runs is at least its first value and at
/// least the value of every accepted run before, and equals one of those.
proof fn lemma_history_peak(h: Seq<u8>, maps: Seq<Seq<u8>>, k: int, i: int)
    requires
        maps_fit(h, maps),
        0 <= k <= maps.len(),
        0 <= i < h.len(),
    ensures
        history_after(h, maps.subrange(0, k))[i] >= h[i],
        forall|j: int|
            0 <= j < k && #[trigger] accepted_at(h, maps, j) ==> history_after(
                h,
                maps.subrange(0, k),
            )[i] >= maps[j][i],
        history_after(h, maps.subrange(0, k))[i] == h[i] || exists|j: int|
            0 <= j < k && #[trigger] accepted_at(h, maps, j) && history_after(
                h,
                maps.subrange(0, k),
            )[i] == maps[j][i],
    decreases k,
{
    if k == 0 {
        assert(maps.subrange(0, 0) =~= Seq::<Seq<u8>>::empty());
    } else {
        lemma_history_peak(h, maps, k - 1, i);
        lemma_history_len(h, maps, k - 1);
        lemma_history_step(h, maps, k - 1);
        let before = history_after(h, maps.subrange(0, k - 1));
        let after = history_after(h, maps.subrange(0, k));
        let m = maps[k - 1];
        assert(m.len() == h.len());
        if !accepted_at(h, maps, k - 1) {
            assert forall|c: int| 0 <= c < before.len() implies after[c] == before[c] by {
                if m[c] > before[c] {
                    assert(exceeds(before, m));
                }
            }
            assert(after[i] == before[i]);
        } else {
            if m[i] > before[i] {
                assert(after[i] == maps[k - 1][i]);
            } else {
                assert(after[i] == before[i]);
            }
        }
    }
}

/// Coverage never shrinks: after more runs, every cell of the maxima is at
/// least what it was after fewer.
pub proof fn lemma_coverage_grows(h: Seq<u8>, maps: Seq<Seq<u8>>, k: int, l: int)
    requires
        maps_fit(h, maps),
        0 <= k <= l <= maps.len(),
    ensures
        history_after(h, maps.subrange(0, l)).len() == h.len(),
        forall|i: int|
            0 <= i < h.len() ==> history_after(h, maps.subrange(0, k))[i] <= #[trigger] history_after(
                h,
                maps.subrange(0, l),
            )[i],
    decreases l - k,
{
    lemma_history_len(h, maps, l);
    if k < l {
        lemma_coverage_grows(h, maps, k, l - 1);
        lemma_history_step(h, maps, l - 1);
        lemma_history_len(h, maps, l - 1);
    }
}

/// A run is accepted exactly when it raises some cell above its first value
/// and above the value every earlier accepted run left there.
pub proof fn lemma_accepts_iff_unseen(h: Seq<u8>, maps: Seq<Seq<u8>>, k: int)
    requires
        maps_fit(h, maps),
        0 <= k < maps.len(),
    ensures
        accepted_at(h, maps, k) <==> exists|i: int|
            0 <= i < h.len() && #[trigger] maps[k][i] > h[i] && forall|j: int|
                0 <= j < k && accepted_at(h, maps, j) ==> maps[k][i] > (#[trigger] maps[j])[i],
{
    lemma_history_len(h, maps, k);
    let before = history_after(h, maps.subrange(0, k));
    let m = maps[k];
    if accepted_at(h, maps, k) {
        let i = choose|i: int| 0 <= i < before.len() && #[trigger] m[i] > before[i];
        lemma_history_peak(h, maps, k, i);
        assert(m[i] > h[i]);
    }
    if exists|i: int|
        0 <= i < h.len() && #[trigger] maps[k][i] > h[i] && forall|j: int|
            0 <= j < k && accepted_at(h, maps, j) ==> maps[k][i] > (#[trigger] maps[j])[i] {
        let i = choose|i: int|
            0 <= i < h.len() && #[trigger] maps[k][i] > h[i] && forall|j: int|
                0 <= j < k && accepted_at(h, maps, j) ==> maps[k][i] > (#[trigger] maps[j])[i];
        lemma_history_peak(h, maps, k, i);
        let v = before[i];
        if v != h[i] {
            let j = choose|j: int|
                0 <= j < k && accepted_at(h, maps, j) && v == (#[trigger] maps[j])[i];
        }
        assert(m[i] > before[i]);
    }
}

/// An eager `or` lets its second side judge every run, whatever the first
/// side says; so a maximum map there always takes in the run. A fast `or`
/// leaves its second side as it was whenever the first side holds, and lets
/// it judge the run otherwise.
pub proof fn lemma_or_runs_second_side<A: Feedback>(
    eager: FeedbackOr<A, MaxMapFeedback>,
    eager_next: FeedbackOr<A, MaxMapFeedback>,
    fast: FeedbackOrFast<A, MaxMapFeedback>,
    fast_next: FeedbackOrFast<A, MaxMapFeedback>,
    map: Seq<u8>,
    exit_kind: ExitKind,
)
    requires
        eager.judged(eager_next, map, exit_kind),
        fast.judged(fast_next, map, exit_kind),
        exit_kind != ExitKind::Timeout,
    ensures
        eager_next.second@.history == max_map(eager.second@.history, map),
        fast.first.verdict(map, exit_kind) ==> fast_next.second@ == fast.second@,
        !fast.first.verdict(map, exit_kind) ==> fast_next.second@.history == max_map(
            fast.second@.history,
            map,
        ),
{
}

/// Each timed-out run raises the count of a timeout feedback by exactly one:
/// after `n` timed-out runs judged one after the other, it is `n` higher.
pub proof fn lemma_timeouts_counted(feedbacks: Seq<TimeoutFeedback>, maps: Seq<Seq<u8>>, n: nat)
    requires
        feedbacks.len() == n + 1,
        maps.len() == n,
        forall|i: int|
            0 <= i < n ==> #[trigger] feedbacks[i].judged(feedbacks[i + 1], maps[i], ExitKind::Timeout),
        feedbacks[0].count() + n <= u64::MAX,
    ensures
        feedbacks[n as int].count() == feedbacks[0].count() + n,
    decreases n,
{
    if n > 0 {
        let m = (n - 1) as nat;
        lemma_timeouts_counted(feedbacks.drop_last(), maps.drop_last(), m);
        assert(feedbacks[m as int].judged(feedbacks[m as int + 1], maps[m as int], ExitKind::Timeout));
    }
}

} // verus!
