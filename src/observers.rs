use vstd::prelude::*;

use crate::exit_kind::ExitKind;

verus! {

/// Records something about a single run of the target.
pub trait Observer: Sized {
    /// Whether `after` is this observer once `pre_exec` ran.
    spec fn reset_to(&self, after: Self) -> bool;

    /// Whether `after` is this observer once `post_exec` ran for a run that
    /// ended as `exit_kind`.
    spec fn concluded_to(&self, after: Self, exit_kind: ExitKind) -> bool;

    /// Called just before the run.
    fn pre_exec(&mut self)
        ensures
            old(self).reset_to(*final(self)),
    ;

    /// Called just after the run, with how it ended.
    fn post_exec(&mut self, exit_kind: ExitKind)
        ensures
            old(self).concluded_to(*final(self), exit_kind),
    ;
}

/// A fixed list of observers, driven together around each run.
pub trait ObserversTuple: Sized {
    /// Whether `after` is this list once every observer's `pre_exec` ran.
    spec fn prepared(&self, after: Self) -> bool;

    /// Whether `after` is this list once every observer's `post_exec` ran for
    /// a run that ended as `exit_kind`.
    spec fn concluded(&self, after: Self, exit_kind: ExitKind) -> bool;

    /// Calls `pre_exec` on each observer, in order.
    fn pre_exec_all(&mut self)
        ensures
            old(self).prepared(*final(self)),
    ;

    /// Calls `post_exec` on each observer, in order.
    fn post_exec_all(&mut self, exit_kind: ExitKind)
        ensures
            old(self).concluded(*final(self), exit_kind),
    ;
}

impl ObserversTuple for () {
    open spec fn prepared(&self, after: Self) -> bool {
        true
    }

    open spec fn concluded(&self, after: Self, exit_kind: ExitKind) -> bool {
        true
    }

    fn pre_exec_all(&mut self) {
    }

    fn post_exec_all(&mut self, exit_kind: ExitKind) {
    }
}

impl<Head: Observer, Tail: ObserversTuple> ObserversTuple for (Head, Tail) {
    open spec fn prepared(&self, after: Self) -> bool {
        self.0.reset_to(after.0) && self.1.prepared(after.1)
    }

    open spec fn concluded(&self, after: Self, exit_kind: ExitKind) -> bool {
        self.0.concluded_to(after.0, exit_kind) && self.1.concluded(after.1, exit_kind)
    }

    fn pre_exec_all(&mut self) {
        self.0.pre_exec();
        self.1.pre_exec_all();
    }

    fn post_exec_all(&mut self, exit_kind: ExitKind) {
        self.0.post_exec(exit_kind);
        self.1.post_exec_all(exit_kind);
    }
}

/// Observers that hold an edge map.
pub trait HasEdgeMap {
    /// The edge map.
    spec fn edge_view(&self) -> Seq<u8>;

    /// The edge map.
    fn edge_map(&self) -> (r: &[u8])
        ensures
            r@ == self.edge_view(),
    ;
}

/// A list of observers whose first one holds the edge map.
impl<Head: HasEdgeMap, Tail> HasEdgeMap for (Head, Tail) {
    open spec fn edge_view(&self) -> Seq<u8> {
        self.0.edge_view()
    }

    fn edge_map(&self) -> (r: &[u8]) {
        self.0.edge_map()
    }
}

/// The bucket a raw hit count falls in: 0, 1, 2 and 3 hits stand apart, then
/// 4-7, 8-15, 16-31, 32-127 and 128 or more, each named by a single bit.
pub open spec fn hitcount_class(b: u8) -> u8 {
    if b <= 2 {
        b
    } else if b == 3 {
        4
    } else if b <= 7 {
        8
    } else if b <= 15 {
        16
    } else if b <= 31 {
        32
    } else if b <= 127 {
        64
    } else {
        128
    }
}

/// The bucket of a raw hit count.
pub fn classify_count(b: u8) -> (r: u8)
    ensures
        r == hitcount_class(b),
{
    if b <= 2 {
        b
    } else if b == 3 {
        4
    } else if b <= 7 {
        8
    } else if b <= 15 {
        16
    } else if b <= 31 {
        32
    } else if b <= 127 {
        64
    } else {
        128
    }
}

/// Replaces each raw hit count of `map` by its bucket.
pub fn classify_counts(map: &mut Vec<u8>)
    ensures
        final(map)@ == old(map)@.map_values(|b: u8| hitcount_class(b)),
{
    let ghost start = old(map)@;
    let mut i: usize = 0;
    while i < map.len()
        invariant
            map@.len() == start.len(),
            i <= start.len(),
            forall|j: int| 0 <= j < i ==> map@[j] == hitcount_class(start[j]),
            forall|j: int| i <= j < start.len() ==> map@[j] == start[j],
        decreases start.len() - i,
    {
        let c = classify_count(map[i]);
        map[i] = c;
        i = i + 1;
    }
    assert(map@ =~= start.map_values(|b: u8| hitcount_class(b)));
}

/// An edge map: one counter per basic-block transition, zeroed before each
/// run so that nothing of an earlier run leaks into the next.
#[derive(Debug)]
pub struct StdMapObserver {
    name: String,
    map: Vec<u8>,
}

impl View for StdMapObserver {
    type V = Seq<u8>;

    closed spec fn view(&self) -> Seq<u8> {
        self.map@
    }
}

impl StdMapObserver {
    /// An observer named `name` with `map_size` zeroed counters.
    pub fn new(name: String, map_size: usize) -> (r: Self)
        ensures
            r@ == Seq::new(map_size as nat, |i: int| 0u8),
            r.name_view() == name@,
    {
        let mut map: Vec<u8> = Vec::new();
        let mut i: usize = 0;
        while i < map_size
            invariant
                i <= map_size,
                map@ == Seq::new(i as nat, |j: int| 0u8),
            decreases map_size - i,
        {
            map.push(0);
            i = i + 1;
            assert(map@ =~= Seq::new(i as nat, |j: int| 0u8));
        }
        StdMapObserver { name, map }
    }

    /// The observer's name.
    pub closed spec fn name_view(&self) -> Seq<char> {
        self.name@
    }

    /// The observer's name.
    pub fn name(&self) -> (r: &str)
        ensures
            r@ == self.name_view(),
    {
        self.name.as_str()
    }

    /// The counters.
    pub fn map(&self) -> (r: &[u8])
        ensures
            r@ == self@,
    {
        self.map.as_slice()
    }

    /// Counts one more pass over the transition `idx`, wrapping at 256 as
    /// the instrumentation does.
    pub fn hit(&mut self, idx: usize)
        requires
            idx < old(self)@.len(),
        ensures
            final(self)@ == old(self)@.update(idx as int, (if old(self)@[idx as int] == 255 {
                0
            } else {
                old(self)@[idx as int] + 1
            }) as u8),
    {
        let v = self.map[idx];
        let next: u8 = if v == 255 {
            0
        } else {
            v + 1
        };
        self.map[idx] = next;
    }
}

impl Observer for StdMapObserver {
    open spec fn reset_to(&self, after: Self) -> bool {
        after@ == Seq::new(self@.len(), |i: int| 0u8) && after.name_view() == self.name_view()
    }

    open spec fn concluded_to(&self, after: Self, exit_kind: ExitKind) -> bool {
        after@ == self@ && after.name_view() == self.name_view()
    }

    /// Zeroes every counter.
    fn pre_exec(&mut self)
        ensures
            final(self)@ == Seq::new(old(self)@.len(), |i: int| 0u8),
    {
        let ghost n = self.map@.len();
        let mut i: usize = 0;
        while i < self.map.len()
            invariant
                self.map@.len() == n,
                self.name == old(self).name,
                i <= n,
                forall|j: int| 0 <= j < i ==> self.map@[j] == 0,
            decreases n - i,
        {
            self.map[i] = 0;
            i = i + 1;
        }
        assert(self.map@ =~= Seq::new(n, |j: int| 0u8));
    }

    fn post_exec(&mut self, exit_kind: ExitKind)
        ensures
            final(self)@ == old(self)@,
    {
    }
}

impl HasEdgeMap for StdMapObserver {
    open spec fn edge_view(&self) -> Seq<u8> {
        self@
    }

    fn edge_map(&self) -> (r: &[u8]) {
        self.map()
    }
}

/// An edge map whose raw counts are replaced by their buckets after each
/// run, so that small changes in a loop count do not look new.
#[derive(Debug)]
pub struct HitcountsMapObserver {
    base: StdMapObserver,
}

impl View for HitcountsMapObserver {
    type V = Seq<u8>;

    closed spec fn view(&self) -> Seq<u8> {
        self.base@
    }
}

impl HitcountsMapObserver {
    /// Wraps `base`.
    pub fn new(base: StdMapObserver) -> (r: Self)
        ensures
            r@ == base@,
    {
        HitcountsMapObserver { base }
    }

    /// The counters.
    pub fn map(&self) -> (r: &[u8])
        ensures
            r@ == self@,
    {
        self.base.map()
    }

    /// Counts one more pass over the transition `idx`.
    pub fn hit(&mut self, idx: usize)
        requires
            idx < old(self)@.len(),
        ensures
            final(self)@ == old(self)@.update(idx as int, (if old(self)@[idx as int] == 255 {
                0
            } else {
                old(self)@[idx as int] + 1
            }) as u8),
    {
        self.base.hit(idx);
    }
}

impl Observer for HitcountsMapObserver {
    open spec fn reset_to(&self, after: Self) -> bool {
        after@ == Seq::new(self@.len(), |i: int| 0u8)
    }

    open spec fn concluded_to(&self, after: Self, exit_kind: ExitKind) -> bool {
        after@ == self@.map_values(|b: u8| hitcount_class(b))
    }

    /// Zeroes every counter.
    fn pre_exec(&mut self)
        ensures
            final(self)@ == Seq::new(old(self)@.len(), |i: int| 0u8),
    {
        self.base.pre_exec();
    }

    /// Replaces each count by its bucket.
    fn post_exec(&mut self, exit_kind: ExitKind)
        ensures
            final(self)@ == old(self)@.map_values(|b: u8| hitcount_class(b)),
    {
        classify_counts(&mut self.base.map);
    }
}

impl HasEdgeMap for HitcountsMapObserver {
    open spec fn edge_view(&self) -> Seq<u8> {
        self@
    }

    fn edge_map(&self) -> (r: &[u8]) {
        self.map()
    }
}

} // verus!
