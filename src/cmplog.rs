use core::ops::Range;
use vstd::prelude::*;

verus! {

/// Width of the comparison log: the number of comparison sites it can tell
/// apart. A power of two.
pub const CMPLOG_MAP_W: usize = 65536;

/// Which guest addresses get instrumented.
#[derive(Debug)]
pub enum QemuInstrumentationFilter {
    /// Only addresses inside one of these ranges.
    AllowList(Vec<Range<u64>>),
    /// Every address outside all of these ranges.
    DenyList(Vec<Range<u64>>),
    /// Every address.
    AllowAll,
}

/// Whether `addr` lies in the half-open range `r`.
pub open spec fn in_range(r: Range<u64>, addr: u64) -> bool {
    r.start <= addr && addr < r.end
}

/// Whether `addr` lies in one of the ranges of `l`.
pub open spec fn in_some_range(l: Seq<Range<u64>>, addr: u64) -> bool {
    exists|i: int| 0 <= i < l.len() && in_range(#[trigger] l[i], addr)
}

impl QemuInstrumentationFilter {
    /// Whether the filter lets `addr` be instrumented.
    pub open spec fn allows(&self, addr: u64) -> bool {
        match self {
            QemuInstrumentationFilter::AllowList(l) => in_some_range(l@, addr),
            QemuInstrumentationFilter::DenyList(l) => !in_some_range(l@, addr),
            QemuInstrumentationFilter::AllowAll => true,
        }
    }

    /// Whether `addr` is to be instrumented: inside an allowed range, outside
    /// every denied range, or anywhere when nothing is filtered.
    pub fn allowed(&self, addr: u64) -> (r: bool)
        ensures
            r == self.allows(addr),
    {
        match self {
            QemuInstrumentationFilter::AllowList(l) => range_list_contains(l.as_slice(), addr),
            QemuInstrumentationFilter::DenyList(l) => !range_list_contains(l.as_slice(), addr),
            QemuInstrumentationFilter::AllowAll => true,
        }
    }
}

/// Whether one of the ranges of `l` holds `addr`.
fn range_list_contains(l: &[Range<u64>], addr: u64) -> (r: bool)
    ensures
        r == in_some_range(l@, addr),
{
    let mut i: usize = 0;
    while i < l.len()
        invariant
            i <= l@.len(),
            forall|j: int| 0 <= j < i ==> !in_range(#[trigger] l@[j], addr),
        decreases l@.len() - i,
    {
        if l[i].start <= addr && addr < l[i].end {
            assert(in_range(l@[i as int], addr));
            return true;
        }
        i = i + 1;
    }
    false
}

/// Hands out comparison-site ids in order of first sight, for a target run
/// in the emulator.
#[derive(Debug)]
pub struct QemuCmpLogHelper {
    filter: QemuInstrumentationFilter,
}

impl View for QemuCmpLogHelper {
    type V = QemuInstrumentationFilter;

    closed spec fn view(&self) -> QemuInstrumentationFilter {
        self.filter
    }
}

impl QemuCmpLogHelper {
    /// A helper that instruments every address.
    pub fn new() -> (r: Self)
        ensures
            r@ is AllowAll,
    {
        QemuCmpLogHelper { filter: QemuInstrumentationFilter::AllowAll }
    }

    /// A helper that instruments the addresses `filter` allows.
    pub fn with_instrumentation_filter(filter: QemuInstrumentationFilter) -> (r: Self)
        ensures
            r@ == filter,
    {
        QemuCmpLogHelper { filter }
    }

    /// Whether the comparison at `addr` is to be instrumented.
    pub fn must_instrument(&self, addr: u64) -> (r: bool)
        ensures
            r == self@.allows(addr),
    {
        self.filter.allowed(addr)
    }
}

impl Default for QemuCmpLogHelper {
    fn default() -> (r: Self)
        ensures
            r@ is AllowAll,
    {
        Self::new()
    }
}

/// Gives comparison sites ids hashed from their address, so that forked
/// children, which share no state, agree on them.
#[derive(Debug)]
pub struct QemuCmpLogChildHelper {
    filter: QemuInstrumentationFilter,
}

impl View for QemuCmpLogChildHelper {
    type V = QemuInstrumentationFilter;

    closed spec fn view(&self) -> QemuInstrumentationFilter {
        self.filter
    }
}

impl QemuCmpLogChildHelper {
    /// A helper that instruments every address.
    pub fn new() -> (r: Self)
        ensures
            r@ is AllowAll,
    {
        QemuCmpLogChildHelper { filter: QemuInstrumentationFilter::AllowAll }
    }

    /// A helper that instruments the addresses `filter` allows.
    pub fn with_instrumentation_filter(filter: QemuInstrumentationFilter) -> (r: Self)
        ensures
            r@ == filter,
    {
        QemuCmpLogChildHelper { filter }
    }

    /// Whether the comparison at `addr` is to be instrumented.
    pub fn must_instrument(&self, addr: u64) -> (r: bool)
        ensures
            r == self@.allows(addr),
    {
        self.filter.allowed(addr)
    }
}

impl Default for QemuCmpLogChildHelper {
    fn default() -> (r: Self)
        ensures
            r@ is AllowAll,
    {
        Self::new()
    }
}

/// The multiplier of the address-mixing rounds.
pub const HASH_MUL: u64 = 0x45d9f3b;

/// One mixing round: fold the high bits down, then multiply, modulo 2^64.
pub open spec fn mix_round(x: u64) -> u64 {
    ((((x >> 16u64) ^ x) as int * HASH_MUL as int) % 0x1_0000_0000_0000_0000) as u64
}

/// The hash of a guest address: two mixing rounds, then the high bits of
/// the result folded down.
pub open spec fn hash_me_spec(x: u64) -> u64 {
    let y = mix_round(mix_round(x));
    ((y >> 16u64) ^ y) ^ y
}

/// Mixes the bits of `x` into a well-spread 64-bit value.
pub fn hash_me(x: u64) -> (r: u64)
    ensures
        r == hash_me_spec(x),
{
    let mut y: u64 = ((x >> 16u64) ^ x).wrapping_mul(HASH_MUL);
    y = ((y >> 16u64) ^ y).wrapping_mul(HASH_MUL);
    ((y >> 16u64) ^ y) ^ y
}

/// The id of the comparison at `pc` for a forked child: none where the
/// helper's filter excludes `pc`, else the hash of `pc`.
pub fn gen_hashed_cmp_ids(helper: Option<&QemuCmpLogChildHelper>, pc: u64, _size: usize) -> (r:
    Option<u64>)
    ensures
        r == (if helper matches Some(h) && !h@.allows(pc) {
            None
        } else {
            Some(hash_me_spec(pc))
        }),
{
    if let Some(h) = helper {
        if !h.must_instrument(pc) {
            return None;
        }
    }
    Some(hash_me(pc))
}

/// A table from comparison-site address to id.
#[verifier::external_body]
#[derive(Debug)]
pub struct CmpIdMap {
    inner: hashbrown::HashMap<u64, u64>,
}

/// No ids at all.
pub open spec fn no_ids() -> Map<u64, u64> {
    Map::empty()
}

/// The ids a `CmpIdMap` holds, by address.
pub uninterp spec fn cmp_ids(m: CmpIdMap) -> Map<u64, u64>;

impl CmpIdMap {
    /// Relies on `hashbrown::HashMap::new`: the map starts empty.
    #[verifier::external_body]
    fn new() -> (r: CmpIdMap)
        ensures
            cmp_ids(r) == no_ids(),
    {
        CmpIdMap { inner: hashbrown::HashMap::new() }
    }

    /// Relies on `hashbrown::HashMap::get`: the value stored under `k`, if any.
    #[verifier::external_body]
    fn get(&self, k: u64) -> (r: Option<u64>)
        ensures
            r == (if cmp_ids(*self).contains_key(k) {
                Some(cmp_ids(*self)[k])
            } else {
                None
            }),
    {
        self.inner.get(&k).copied()
    }

    /// Relies on `hashbrown::HashMap::insert`: afterwards `k` maps to `v`, and
    /// every other key keeps its value.
    #[verifier::external_body]
    fn insert(&mut self, k: u64, v: u64)
        ensures
            cmp_ids(*final(self)) == cmp_ids(*old(self)).insert(k, v),
    {
        self.inner.insert(k, v);
    }
}

/// The ids handed out to comparison sites so far, and the next one.
#[derive(Debug)]
pub struct QemuCmpsMapMetadata {
    map: CmpIdMap,
    current_id: u64,
}

/// What `QemuCmpsMapMetadata` holds.
pub struct CmpsMapView {
    /// The id of each comparison site seen so far.
    pub ids: Map<u64, u64>,
    /// The id the next new site gets.
    pub current_id: u64,
}

impl View for QemuCmpsMapMetadata {
    type V = CmpsMapView;

    closed spec fn view(&self) -> CmpsMapView {
        CmpsMapView { ids: cmp_ids(self.map), current_id: self.current_id }
    }
}

impl QemuCmpsMapMetadata {
    /// Every id, handed out or next, fits the width of the comparison log.
    pub open spec fn wf(&self) -> bool {
        &&& self@.current_id < CMPLOG_MAP_W
        &&& forall|pc: u64| #[trigger] self@.ids.contains_key(pc) ==> self@.ids[pc] < CMPLOG_MAP_W
    }

    /// No site seen yet; the first gets id zero.
    pub fn new() -> (r: Self)
        ensures
            r@.ids == Map::<u64, u64>::empty(),
            r@.current_id == 0,
            r.wf(),
    {
        QemuCmpsMapMetadata { map: CmpIdMap::new(), current_id: 0 }
    }
}

impl Default for QemuCmpsMapMetadata {
    fn default() -> (r: Self)
        ensures
            r@.ids == Map::<u64, u64>::empty(),
            r@.current_id == 0,
            r.wf(),
    {
        Self::new()
    }
}

/// The id of the comparison at `pc`: none where the helper's filter excludes
/// `pc`; the id it got before where it was seen; else the next id, which
/// `pc` keeps from then on, the one after it wrapping round the width of
/// the comparison log.
pub fn gen_unique_cmp_ids(
    helper: Option<&QemuCmpLogHelper>,
    meta: &mut QemuCmpsMapMetadata,
    pc: u64,
    _size: usize,
) -> (r: Option<u64>)
    requires
        old(meta).wf(),
    ensures
        final(meta).wf(),
        helper matches Some(h) && !h@.allows(pc) ==> r is None && final(meta)@ == old(meta)@,
        !(helper matches Some(h) && !h@.allows(pc)) ==> if old(meta)@.ids.contains_key(pc) {
            &&& r == Some(old(meta)@.ids[pc])
            &&& final(meta)@ == old(meta)@
        } else {
            &&& r == Some(old(meta)@.current_id)
            &&& final(meta)@.ids == old(meta)@.ids.insert(pc, old(meta)@.current_id)
            &&& final(meta)@.current_id == (old(meta)@.current_id + 1) % (CMPLOG_MAP_W as int)
        },
{
    if let Some(h) = helper {
        if !h.must_instrument(pc) {
            return None;
        }
    }
    match meta.map.get(pc) {
        Some(id) => Some(id),
        None => {
            let id: u64 = meta.current_id;
            meta.map.insert(pc, id);
            let bumped: u64 = id + 1;
            let next: u64 = bumped & (CMPLOG_MAP_W as u64 - 1);
            assert(bumped & 65535u64 == bumped % 65536u64) by (bit_vector);
            meta.current_id = next;
            assert forall|q: u64| #[trigger] meta@.ids.contains_key(q) implies meta@.ids[q]
                < CMPLOG_MAP_W by {
                if q != pc {
                    assert(old(meta)@.ids.contains_key(q));
                }
            }
            Some(id)
        },
    }
}

} // verus!
