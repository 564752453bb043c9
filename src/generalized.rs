use vstd::prelude::*;

use crate::inputs::{HasBytesVec, HasLen, HasTargetBytes, Input};
use crate::naming::{bytes_hash, hex16};

verus! {

/// An item of a generalized input.
#[derive(Debug, Hash)]
pub enum GeneralizedItem {
    /// Real bytes.
    Bytes(Vec<u8>),
    /// An insertion point.
    Gap,
}

/// What a `GeneralizedItem` stands for.
pub enum ItemView {
    Bytes(Seq<u8>),
    Gap,
}

impl View for GeneralizedItem {
    type V = ItemView;

    open spec fn view(&self) -> ItemView {
        match self {
            GeneralizedItem::Bytes(b) => ItemView::Bytes(b@),
            GeneralizedItem::Gap => ItemView::Gap,
        }
    }
}

impl Clone for GeneralizedItem {
    fn clone(&self) -> (r: Self)
        ensures
            r@ == self@,
    {
        match self {
            GeneralizedItem::Bytes(b) => GeneralizedItem::Bytes(copy_bytes(b.as_slice())),
            GeneralizedItem::Gap => GeneralizedItem::Gap,
        }
    }
}

impl PartialEq for GeneralizedItem {
    fn eq(&self, o: &GeneralizedItem) -> (r: bool)
        ensures
            r == (self@ == o@),
    {
        match (self, o) {
            (GeneralizedItem::Bytes(a), GeneralizedItem::Bytes(b)) => bytes_equal(a.as_slice(), b.as_slice()),
            (GeneralizedItem::Gap, GeneralizedItem::Gap) => true,
            _ => false,
        }
    }
}

impl vstd::std_specs::cmp::PartialEqSpecImpl for GeneralizedItem {
    open spec fn obeys_eq_spec() -> bool {
        true
    }

    open spec fn eq_spec(&self, o: &GeneralizedItem) -> bool {
        self@ == o@
    }
}

impl Eq for GeneralizedItem {
}

/// A fresh vector holding the bytes of `b`.
pub(crate) fn copy_bytes(b: &[u8]) -> (r: Vec<u8>)
    ensures
        r@ == b@,
{
    let mut r: Vec<u8> = Vec::new();
    let mut i: usize = 0;
    while i < b.len()
        invariant
            i <= b@.len(),
            r@ == b@.subrange(0, i as int),
        decreases b@.len() - i,
    {
        r.push(b[i]);
        i = i + 1;
    }
    assert(r@ =~= b@);
    r
}

/// Whether `a` and `b` hold the same bytes.
fn bytes_equal(a: &[u8], b: &[u8]) -> (r: bool)
    ensures
        r == (a@ == b@),
{
    if a.len() != b.len() {
        return false;
    }
    let mut i: usize = 0;
    while i < a.len()
        invariant
            a@.len() == b@.len(),
            i <= a@.len(),
            a@.subrange(0, i as int) == b@.subrange(0, i as int),
        decreases a@.len() - i,
    {
        if a[i] != b[i] {
            assert(a@[i as int] != b@[i as int]);
            return false;
        }
        assert(a@.subrange(0, i + 1) =~= a@.subrange(0, i as int).push(a@[i as int]));
        assert(b@.subrange(0, i + 1) =~= b@.subrange(0, i as int).push(b@[i as int]));
        i = i + 1;
    }
    assert(a@ =~= a@.subrange(0, a@.len() as int));
    assert(b@ =~= b@.subrange(0, b@.len() as int));
    true
}

/// The views of a sequence of items.
pub open spec fn items_view(s: Seq<GeneralizedItem>) -> Seq<ItemView> {
    s.map_values(|i: GeneralizedItem| i@)
}

proof fn lemma_items_view_push(s: Seq<GeneralizedItem>, x: GeneralizedItem)
    ensures
        items_view(s.push(x)) == items_view(s).push(x@),
{
    assert(items_view(s.push(x)) =~= items_view(s).push(x@));
}

/// `items` with the pending run of bytes `run` closed as an item, if any.
pub open spec fn close_run(items: Seq<ItemView>, run: Seq<u8>) -> Seq<ItemView> {
    if run.len() > 0 {
        items.push(ItemView::Bytes(run))
    } else {
        items
    }
}

/// Reading `v` from the left, where a `None` is an insertion point and each
/// maximal run of `Some` bytes is one item: the items closed so far, and the
/// run still open at the end.
pub open spec fn scan_options(v: Seq<Option<u8>>) -> (Seq<ItemView>, Seq<u8>)
    decreases v.len(),
{
    if v.len() == 0 {
        (Seq::empty(), Seq::empty())
    } else {
        let (items, run) = scan_options(v.drop_last());
        match v.last() {
            None => (close_run(items, run).push(ItemView::Gap), Seq::empty()),
            Some(b) => (items, run.push(b)),
        }
    }
}

/// The template described by `v`: the items of `v` (runs of bytes, and a gap
/// for each `None`), always starting and ending with a gap.
pub open spec fn template_of_options(v: Seq<Option<u8>>) -> Seq<ItemView> {
    let lead = if v.len() > 0 && v[0] is None {
        Seq::<ItemView>::empty()
    } else {
        seq![ItemView::Gap]
    };
    let body = close_run(lead + scan_options(v).0, scan_options(v).1);
    if body.len() > 0 && body.last() == ItemView::Gap {
        body
    } else {
        body.push(ItemView::Gap)
    }
}

/// `g` followed by `o`, where a gap that ends `g` and a gap that starts `o`
/// merge into one.
pub open spec fn extended(g: Seq<ItemView>, o: Seq<ItemView>) -> Seq<ItemView> {
    if g.len() > 0 && o.len() > 0 && g.last() == ItemView::Gap && o[0] == ItemView::Gap {
        g + o.drop_first()
    } else {
        g + o
    }
}

/// The size an item counts for: its bytes, or one for a gap.
pub open spec fn item_len(i: ItemView) -> nat {
    match i {
        ItemView::Bytes(b) => b.len(),
        ItemView::Gap => 1,
    }
}

/// The size of a template: the sum of the sizes of its items.
pub open spec fn template_len(s: Seq<ItemView>) -> nat
    decreases s.len(),
{
    if s.len() == 0 {
        0
    } else {
        template_len(s.drop_last()) + item_len(s.last())
    }
}

/// The bytes of a template: the bytes of its items in order, gaps left out.
pub open spec fn template_bytes(s: Seq<ItemView>) -> Seq<u8>
    decreases s.len(),
{
    if s.len() == 0 {
        Seq::empty()
    } else {
        template_bytes(s.drop_last()) + match s.last() {
            ItemView::Bytes(b) => b,
            ItemView::Gap => Seq::empty(),
        }
    }
}

/// A prefix of a template is no larger than the template.
proof fn lemma_template_len_prefix(s: Seq<ItemView>, i: int)
    requires
        0 <= i <= s.len(),
    ensures
        template_len(s.subrange(0, i)) <= template_len(s),
    decreases s.len() - i,
{
    if i < s.len() {
        lemma_template_len_prefix(s, i + 1);
        assert(s.subrange(0, i + 1).drop_last() =~= s.subrange(0, i));
    } else {
        assert(s.subrange(0, i) =~= s);
    }
}

/// The views of an optional sequence of items.
pub open spec fn opt_items_view(o: Option<Vec<GeneralizedItem>>) -> Option<Seq<ItemView>> {
    match o {
        Some(g) => Some(items_view(g@)),
        None => None,
    }
}

/// A template, or no items where there is none.
pub open spec fn template_or_empty(t: Option<Seq<ItemView>>) -> Seq<ItemView> {
    match t {
        Some(s) => s,
        None => Seq::empty(),
    }
}

/// The bytes of a template, or no bytes where there is none.
pub open spec fn materialized(t: Option<Seq<ItemView>>) -> Seq<u8> {
    template_bytes(template_or_empty(t))
}

/// Appends the bytes of `src` to `dst`.
fn append_bytes(dst: &mut Vec<u8>, src: &[u8])
    ensures
        final(dst)@ == old(dst)@ + src@,
{
    let ghost start = old(dst)@;
    let mut i: usize = 0;
    while i < src.len()
        invariant
            i <= src@.len(),
            dst@ == start + src@.subrange(0, i as int),
        decreases src@.len() - i,
    {
        dst.push(src[i]);
        i = i + 1;
        assert(dst@ =~= start + src@.subrange(0, i as int));
    }
    assert(src@.subrange(0, src@.len() as int) =~= src@);
}

/// A byte input that may also carry a template: runs of bytes with
/// insertion points between them.
#[derive(Debug, Hash)]
pub struct GeneralizedInput {
    bytes: Vec<u8>,
    generalized: Option<Vec<GeneralizedItem>>,
    /// Whether the last mutation worked on the template rather than on the
    /// raw bytes.
    pub grimoire_mutated: bool,
}

/// What a `GeneralizedInput` holds: its raw bytes and its template, if any.
pub struct GeneralizedInputView {
    pub bytes: Seq<u8>,
    pub template: Option<Seq<ItemView>>,
    pub grimoire_mutated: bool,
}

impl View for GeneralizedInput {
    type V = GeneralizedInputView;

    closed spec fn view(&self) -> GeneralizedInputView {
        GeneralizedInputView {
            bytes: self.bytes@,
            template: opt_items_view(self.generalized),
            grimoire_mutated: self.grimoire_mutated,
        }
    }
}

impl GeneralizedInput {
    /// An input of the given bytes, with no template.
    pub fn new(bytes: Vec<u8>) -> (r: Self)
        ensures
            r@.bytes == bytes@,
            r@.template is None,
            !r@.grimoire_mutated,
    {
        GeneralizedInput { bytes, generalized: None, grimoire_mutated: false }
    }

    /// Sets the template from `v`, where `None` is an insertion point and each
    /// run of `Some` bytes is one item; the template starts and ends with a gap.
    pub fn generalized_from_options(&mut self, v: &[Option<u8>])
        ensures
            final(self)@.template == Some(template_of_options(v@)),
            final(self)@.bytes == old(self)@.bytes,
            final(self)@.grimoire_mutated == old(self)@.grimoire_mutated,
    {
        let mut res: Vec<GeneralizedItem> = Vec::new();
        let mut bytes: Vec<u8> = Vec::new();
        if v.len() == 0 || v[0].is_some() {
            res.push(GeneralizedItem::Gap);
        }
        let ghost lead = items_view(res@);
        assert(lead =~= (if v@.len() > 0 && v@[0] is None {
            Seq::<ItemView>::empty()
        } else {
            seq![ItemView::Gap]
        }));
        assert(v@.subrange(0, 0) =~= Seq::<Option<u8>>::empty());
        let mut i: usize = 0;
        while i < v.len()
            invariant
                i <= v@.len(),
                items_view(res@) == lead + scan_options(v@.subrange(0, i as int)).0,
                bytes@ == scan_options(v@.subrange(0, i as int)).1,
            decreases v@.len() - i,
        {
            let ghost prev = v@.subrange(0, i as int);
            let ghost items = scan_options(prev).0;
            let ghost run = scan_options(prev).1;
            assert(v@.subrange(0, i + 1).drop_last() =~= prev);
            assert(v@.subrange(0, i + 1).last() == v@[i as int]);
            match v[i] {
                None => {
                    if bytes.len() > 0 {
                        let mut closed: Vec<u8> = Vec::new();
                        core::mem::swap(&mut closed, &mut bytes);
                        res.push(GeneralizedItem::Bytes(closed));
                        assert(items_view(res@) =~= (lead + items).push(ItemView::Bytes(run)));
                    }
                    assert(items_view(res@) =~= lead + close_run(items, run));
                    proof {
                        lemma_items_view_push(res@, GeneralizedItem::Gap);
                    }
                    res.push(GeneralizedItem::Gap);
                    assert(items_view(res@) =~= lead + close_run(items, run).push(ItemView::Gap));
                    assert(bytes@ =~= Seq::<u8>::empty());
                },
                Some(b) => {
                    bytes.push(b);
                },
            }
            i = i + 1;
        }
        assert(v@.subrange(0, v@.len() as int) =~= v@);
        let ghost items = scan_options(v@).0;
        let ghost run = scan_options(v@).1;
        if bytes.len() > 0 {
            res.push(GeneralizedItem::Bytes(bytes));
            assert(items_view(res@) =~= (lead + items).push(ItemView::Bytes(run)));
        }
        let ghost body = close_run(lead + items, run);
        assert(items_view(res@) == body);
        if res.len() == 0 || !matches!(res[res.len() - 1], GeneralizedItem::Gap) {
            res.push(GeneralizedItem::Gap);
            assert(items_view(res@) =~= body.push(ItemView::Gap));
        }
        self.generalized = Some(res);
    }

    /// Appends the items of `other` to the template (an empty one where there
    /// is none), merging a gap that ends it with a gap that starts `other`.
    pub fn generalized_extend(&mut self, other: &[GeneralizedItem])
        ensures
            final(self)@.template == Some(
                extended(template_or_empty(old(self)@.template), items_view(other@)),
            ),
            final(self)@.bytes == old(self)@.bytes,
            final(self)@.grimoire_mutated == old(self)@.grimoire_mutated,
    {
        let mut gen: Vec<GeneralizedItem> = match self.generalized.take() {
            Some(g) => g,
            None => Vec::new(),
        };
        let ghost g0 = items_view(gen@);
        let ghost o = items_view(other@);
        assert(g0 == template_or_empty(old(self)@.template));
        let start: usize = if gen.len() > 0 && other.len() > 0 && matches!(
            gen[gen.len() - 1],
            GeneralizedItem::Gap
        ) && matches!(other[0], GeneralizedItem::Gap) {
            1
        } else {
            0
        };
        assert(g0.len() > 0 ==> g0.last() == gen@[gen@.len() - 1]@);
        assert(o.len() > 0 ==> o[0] == other@[0]@);
        let mut i: usize = start;
        assert(g0 =~= g0 + o.subrange(start as int, i as int));
        while i < other.len()
            invariant
                start <= i <= other@.len(),
                o == items_view(other@),
                items_view(gen@) == g0 + o.subrange(start as int, i as int),
            decreases other@.len() - i,
        {
            let item = other[i].clone();
            proof {
                lemma_items_view_push(gen@, item);
                assert(o.subrange(start as int, i + 1) =~= o.subrange(start as int, i as int).push(
                    o[i as int],
                ));
            }
            gen.push(item);
            i = i + 1;
            assert(items_view(gen@) =~= g0 + o.subrange(start as int, i as int));
        }
        if start == 1 {
            assert(o.subrange(1, o.len() as int) =~= o.drop_first());
        } else {
            assert(o.subrange(0, o.len() as int) =~= o);
        }
        self.generalized = Some(gen);
    }

    /// The size of the template: the bytes of its items plus one for each
    /// gap; zero where there is no template.
    pub fn generalized_len(&self) -> (r: usize)
        requires
            template_len(template_or_empty(self@.template)) <= usize::MAX,
        ensures
            r == template_len(template_or_empty(self@.template)),
    {
        match &self.generalized {
            None => 0,
            Some(gen) => {
                let ghost s = items_view(gen@);
                let mut size: usize = 0;
                let mut i: usize = 0;
                assert(s.subrange(0, 0) =~= Seq::<ItemView>::empty());
                while i < gen.len()
                    invariant
                        i <= gen@.len(),
                        s == items_view(gen@),
                        template_len(s) <= usize::MAX,
                        size == template_len(s.subrange(0, i as int)),
                    decreases gen@.len() - i,
                {
                    proof {
                        lemma_template_len_prefix(s, i + 1);
                        assert(s.subrange(0, i + 1).drop_last() =~= s.subrange(0, i as int));
                    }
                    match &gen[i] {
                        GeneralizedItem::Bytes(b) => {
                            size = size + b.len();
                        },
                        GeneralizedItem::Gap => {
                            size = size + 1;
                        },
                    }
                    i = i + 1;
                }
                assert(s.subrange(0, s.len() as int) =~= s);
                size
            },
        }
    }

    /// The bytes of the template's items in order, gaps left out; no bytes
    /// where there is no template.
    pub fn generalized_to_bytes(&self) -> (r: Vec<u8>)
        ensures
            r@ == materialized(self@.template),
    {
        match &self.generalized {
            None => Vec::new(),
            Some(gen) => {
                let ghost s = items_view(gen@);
                let mut bytes: Vec<u8> = Vec::new();
                let mut i: usize = 0;
                assert(s.subrange(0, 0) =~= Seq::<ItemView>::empty());
                while i < gen.len()
                    invariant
                        i <= gen@.len(),
                        s == items_view(gen@),
                        bytes@ == template_bytes(s.subrange(0, i as int)),
                    decreases gen@.len() - i,
                {
                    assert(s.subrange(0, i + 1).drop_last() =~= s.subrange(0, i as int));
                    match &gen[i] {
                        GeneralizedItem::Bytes(b) => {
                            append_bytes(&mut bytes, b.as_slice());
                        },
                        GeneralizedItem::Gap => {
                            assert(bytes@ =~= bytes@ + Seq::<u8>::empty());
                        },
                    }
                    i = i + 1;
                }
                assert(s.subrange(0, s.len() as int) =~= s);
                bytes
            },
        }
    }

    /// Marks whether the last mutation worked on the template.
    pub fn set_grimoire_mutated(&mut self, mutated: bool)
        ensures
            final(self)@.grimoire_mutated == mutated,
            final(self)@.bytes == old(self)@.bytes,
            final(self)@.template == old(self)@.template,
    {
        self.grimoire_mutated = mutated;
    }

    /// The template, if any.
    pub fn generalized(&self) -> (r: Option<&[GeneralizedItem]>)
        ensures
            match r {
                Some(g) => self@.template == Some(items_view(g@)),
                None => self@.template is None,
            },
    {
        match &self.generalized {
            Some(g) => Some(g.as_slice()),
            None => None,
        }
    }

    /// The template, for change in place.
    pub fn generalized_mut(&mut self) -> (r: &mut Option<Vec<GeneralizedItem>>)
        ensures
            opt_items_view(*r) == old(self)@.template,
            final(self)@.template == opt_items_view(*final(r)),
            final(self)@.bytes == old(self)@.bytes,
            final(self)@.grimoire_mutated == old(self)@.grimoire_mutated,
    {
        &mut self.generalized
    }
}

/// A copy of the items of `g`.
fn copy_items(g: &[GeneralizedItem]) -> (r: Vec<GeneralizedItem>)
    ensures
        items_view(r@) == items_view(g@),
{
    let mut r: Vec<GeneralizedItem> = Vec::new();
    let mut i: usize = 0;
    while i < g.len()
        invariant
            i <= g@.len(),
            items_view(r@) == items_view(g@).subrange(0, i as int),
        decreases g@.len() - i,
    {
        let item = g[i].clone();
        proof {
            lemma_items_view_push(r@, item);
        }
        r.push(item);
        i = i + 1;
        assert(items_view(r@) =~= items_view(g@).subrange(0, i as int));
    }
    assert(items_view(g@).subrange(0, g@.len() as int) =~= items_view(g@));
    r
}

impl Clone for GeneralizedInput {
    fn clone(&self) -> (r: Self)
        ensures
            r@ == self@,
    {
        let generalized = match &self.generalized {
            Some(g) => Some(copy_items(g.as_slice())),
            None => None,
        };
        GeneralizedInput {
            bytes: copy_bytes(self.bytes.as_slice()),
            generalized,
            grimoire_mutated: self.grimoire_mutated,
        }
    }
}

impl Default for GeneralizedInput {
    /// An input of no bytes, with no template.
    fn default() -> (r: Self)
        ensures
            r@.bytes.len() == 0,
            r@.template is None,
            !r@.grimoire_mutated,
    {
        GeneralizedInput::new(Vec::new())
    }
}

impl Input for GeneralizedInput {
    /// Sixteen hexadecimal digits of a hash of the raw bytes.
    fn generate_name(&self, idx: usize) -> (r: String)
        ensures
            r@ == crate::naming::hex16_of(crate::naming::ahash_zero_keyed(self@.bytes)),
    {
        hex16(bytes_hash(self.bytes.as_slice()))
    }

    /// The raw bytes kept; the template kept only after a template-level
    /// mutation; the mark cleared.
    open spec fn wrapped(&self, after: Self) -> bool {
        &&& after@.template == (if self@.grimoire_mutated {
            self@.template
        } else {
            None
        })
        &&& after@.bytes == self@.bytes
        &&& !after@.grimoire_mutated
    }

    /// Drops the template unless the last mutation worked on it, and clears
    /// the mark so that byte-level mutations come next.
    fn wrapped_as_testcase(&mut self) {
        if !self.grimoire_mutated {
            self.generalized = None;
        }
        self.grimoire_mutated = false;
    }
}

impl HasBytesVec for GeneralizedInput {
    fn bytes(&self) -> (r: &[u8])
        ensures
            r@ == self@.bytes,
    {
        self.bytes.as_slice()
    }

    fn bytes_mut(&mut self) -> (r: &mut Vec<u8>)
        ensures
            r@ == old(self)@.bytes,
            final(self)@.bytes == final(r)@,
            final(self)@.template == old(self)@.template,
            final(self)@.grimoire_mutated == old(self)@.grimoire_mutated,
    {
        &mut self.bytes
    }
}

impl HasTargetBytes for GeneralizedInput {
    /// The template's bytes after a template-level mutation, else the raw
    /// bytes.
    open spec fn target_is(&self, bytes: Seq<u8>) -> bool {
        bytes == (if self@.grimoire_mutated {
            materialized(self@.template)
        } else {
            self@.bytes
        })
    }

    fn target_bytes(&self) -> (r: Vec<u8>) {
        if self.grimoire_mutated {
            self.generalized_to_bytes()
        } else {
            copy_bytes(self.bytes.as_slice())
        }
    }
}

impl HasLen for GeneralizedInput {
    fn len(&self) -> (r: usize)
        ensures
            r == self@.bytes.len(),
    {
        self.bytes.len()
    }
}

} // verus!
