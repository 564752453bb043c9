use vstd::prelude::*;

use crate::error::Error;
use crate::generalized::copy_bytes;

verus! {

/// A message on the event bus.
#[derive(Debug)]
pub struct LlmpMsg {
    /// What kind of message this is.
    pub tag: u32,
    /// Its place among all messages of its sender, from zero.
    pub seq: u64,
    /// Its payload.
    pub buf: Vec<u8>,
}

/// What an `LlmpMsg` holds.
pub struct MsgView {
    pub tag: u32,
    pub seq: u64,
    pub buf: Seq<u8>,
}

impl View for LlmpMsg {
    type V = MsgView;

    open spec fn view(&self) -> MsgView {
        MsgView { tag: self.tag, seq: self.seq, buf: self.buf@ }
    }
}

/// The messages of a sequence of pages, page after page.
pub open spec fn flatten(pages: Seq<Seq<MsgView>>) -> Seq<MsgView>
    decreases pages.len(),
{
    if pages.len() == 0 {
        Seq::empty()
    } else {
        flatten(pages.drop_last()) + pages.last()
    }
}

/// The payload bytes a page holds.
pub open spec fn page_bytes(page: Seq<MsgView>) -> nat
    decreases page.len(),
{
    if page.len() == 0 {
        0
    } else {
        page_bytes(page.drop_last()) + page.last().buf.len()
    }
}

/// The views of a page's messages.
pub open spec fn page_view(page: Seq<LlmpMsg>) -> Seq<MsgView> {
    page.map_values(|m: LlmpMsg| m@)
}

/// The views of a sequence of pages.
pub open spec fn pages_view(pages: Seq<Vec<LlmpMsg>>) -> Seq<Seq<MsgView>> {
    pages.map_values(|p: Vec<LlmpMsg>| page_view(p@))
}

/// The messages before the start of page `i`.
pub open spec fn before_page(pages: Seq<Seq<MsgView>>, i: int) -> nat {
    flatten(pages.subrange(0, i)).len()
}

proof fn lemma_flatten_prefix(pages: Seq<Seq<MsgView>>, i: int)
    requires
        0 <= i < pages.len(),
    ensures
        flatten(pages.subrange(0, i + 1)) == flatten(pages.subrange(0, i)) + pages[i],
{
    assert(pages.subrange(0, i + 1).drop_last() =~= pages.subrange(0, i));
}

/// Message `j` of page `i` is message `before_page(i) + j` of all.
proof fn lemma_flatten_index(pages: Seq<Seq<MsgView>>, i: int, j: int)
    requires
        0 <= i < pages.len(),
        0 <= j < pages[i].len(),
    ensures
        before_page(pages, i) + j < flatten(pages).len(),
        flatten(pages)[before_page(pages, i) + j] == pages[i][j],
    decreases pages.len(),
{
    assert(pages.subrange(0, pages.len() as int) =~= pages);
    if i == pages.len() - 1 {
        lemma_flatten_prefix(pages, i);
    } else {
        let shorter = pages.drop_last();
        lemma_flatten_index(shorter, i, j);
        assert(shorter.subrange(0, i) =~= pages.subrange(0, i));
    }
}

/// All messages come before the end of the last page.
proof fn lemma_flatten_len(pages: Seq<Seq<MsgView>>)
    requires
        pages.len() > 0,
    ensures
        flatten(pages).len() == before_page(pages, pages.len() - 1) + pages.last().len(),
{
    assert(pages.subrange(0, pages.len() - 1) =~= pages.drop_last());
}

proof fn lemma_pages_view_push(pages: Seq<Vec<LlmpMsg>>, p: Vec<LlmpMsg>)
    ensures
        pages_view(pages.push(p)) == pages_view(pages).push(page_view(p@)),
{
    assert(pages_view(pages.push(p)) =~= pages_view(pages).push(page_view(p@)));
}

proof fn lemma_page_view_push(page: Seq<LlmpMsg>, m: LlmpMsg)
    ensures
        page_view(page.push(m)) == page_view(page).push(m@),
{
    assert(page_view(page.push(m)) =~= page_view(page).push(m@));
}

/// Whether `new` is `old` with messages appended: the pages before the
/// last are kept, the last one only grows, and new pages may follow.
pub open spec fn appended(old: SenderView, new: SenderView) -> bool {
    &&& old.pages.len() > 0
    &&& new.pages.len() >= old.pages.len()
    &&& forall|i: int| 0 <= i < old.pages.len() - 1 ==> new.pages[i] == old.pages[i]
    &&& old.pages.last().is_prefix_of(new.pages[old.pages.len() - 1])
}

/// The sending side of the bus: messages go to the last page until it is
/// full, then to a new page chained after it.
#[derive(Debug)]
pub struct LlmpSender {
    pages: Vec<Vec<LlmpMsg>>,
    last_used: usize,
    capacity: usize,
    next_seq: u64,
}

/// What an `LlmpSender` holds.
pub struct SenderView {
    /// The messages of each page, the pages in the order they were chained.
    pub pages: Seq<Seq<MsgView>>,
    /// The payload bytes a page can hold.
    pub capacity: nat,
}

impl View for LlmpSender {
    type V = SenderView;

    closed spec fn view(&self) -> SenderView {
        SenderView { pages: pages_view(self.pages@), capacity: self.capacity as nat }
    }
}

impl LlmpSender {
    /// There is a page; every page after the first holds a message; the last
    /// page holds no more than the capacity; the messages are numbered in
    /// order from zero.
    pub closed spec fn wf(&self) -> bool {
        let pages = pages_view(self.pages@);
        let all = flatten(pages);
        &&& pages.len() > 0
        &&& forall|i: int| 1 <= i < pages.len() ==> (#[trigger] pages[i]).len() > 0
        &&& self.last_used == page_bytes(pages.last())
        &&& self.last_used <= self.capacity
        &&& self.next_seq == all.len()
        &&& forall|k: int| 0 <= k < all.len() ==> (#[trigger] all[k]).seq == k
    }

    /// All messages sent so far, in order.
    pub open spec fn sent(&self) -> Seq<MsgView> {
        flatten(self@.pages)
    }

    /// A sender with one empty page of `capacity` payload bytes.
    pub fn new(capacity: usize) -> (r: Self)
        ensures
            r.wf(),
            r@.capacity == capacity,
            r@.pages.len() == 1,
            r.sent().len() == 0,
    {
        let mut pages: Vec<Vec<LlmpMsg>> = Vec::new();
        let first: Vec<LlmpMsg> = Vec::new();
        assert(page_view(first@) =~= Seq::<MsgView>::empty());
        proof {
            lemma_pages_view_push(pages@, first);
        }
        pages.push(first);
        assert(pages_view(pages@) =~= seq![Seq::<MsgView>::empty()]);
        let r = LlmpSender { pages, last_used: 0, capacity, next_seq: 0 };
        assert(pages_view(r.pages@).drop_last() =~= Seq::<Seq<MsgView>>::empty());
        assert(flatten(Seq::<Seq<MsgView>>::empty()) =~= Seq::<MsgView>::empty());
        assert(flatten(pages_view(r.pages@)) =~= Seq::<MsgView>::empty());
        r
    }

    /// Sends `buf` tagged `tag`, and returns its sequence number. It goes on
    /// the last page where it fits, else on a new page chained after it.
    /// `IllegalArgument` where `buf` is larger than a page; `IllegalState`
    /// where the sequence numbers are used up.
    pub fn send(&mut self, tag: u32, buf: Vec<u8>) -> (r: Result<u64, Error>)
        requires
            old(self).wf(),
        ensures
            final(self).wf(),
            final(self)@.capacity == old(self)@.capacity,
            buf@.len() > old(self)@.capacity ==> r == Err::<u64, Error>(Error::IllegalArgument)
                && final(self)@ == old(self)@,
            buf@.len() <= old(self)@.capacity && old(self).sent().len() >= u64::MAX ==> r == Err::<
                u64,
                Error,
            >(Error::IllegalState) && final(self)@ == old(self)@,
            buf@.len() <= old(self)@.capacity && old(self).sent().len() < u64::MAX ==> {
                &&& r == Ok::<u64, Error>(old(self).sent().len() as u64)
                &&& final(self).sent() == old(self).sent().push(
                    MsgView { tag, seq: old(self).sent().len() as u64, buf: buf@ },
                )
                &&& appended(old(self)@, final(self)@)
            },
    {
        if buf.len() > self.capacity {
            return Err(Error::IllegalArgument);
        }
        if self.next_seq == u64::MAX {
            return Err(Error::IllegalState);
        }
        let ghost old_pages = pages_view(self.pages@);
        let seq = self.next_seq;
        let len = buf.len();
        let msg = LlmpMsg { tag, seq, buf };
        assert(msg@.buf.len() == len);
        proof {
            lemma_flatten_len(old_pages);
        }
        if self.last_used <= self.capacity - len {
            let mut last = self.pages.pop().unwrap();
            let ghost rest = self.pages@;
            let ghost last_before = last@;
            assert(rest =~= old(self).pages@.drop_last());
            assert(pages_view(rest) =~= old_pages.drop_last());
            proof {
                lemma_page_view_push(last@, msg);
            }
            last.push(msg);
            proof {
                lemma_pages_view_push(rest, last);
            }
            self.pages.push(last);
            self.last_used = self.last_used + len;
            let ghost pages = pages_view(self.pages@);
            assert(pages.drop_last() =~= old_pages.drop_last());
            assert(pages.last() == old_pages.last().push(msg@));
            assert(page_bytes(pages.last()) == page_bytes(old_pages.last()) + len) by {
                assert(pages.last().drop_last() =~= old_pages.last());
            }
            assert(flatten(pages) =~= flatten(old_pages).push(msg@));
            assert(forall|i: int| 1 <= i < pages.len() ==> (#[trigger] pages[i]).len() > 0) by {
                assert forall|i: int| 1 <= i < pages.len() implies (#[trigger] pages[i]).len()
                    > 0 by {
                    if i < pages.len() - 1 {
                        assert(pages[i] == old_pages[i]);
                    }
                }
            }
            assert(old_pages.last().is_prefix_of(pages[old_pages.len() - 1])) by {
                assert(pages[old_pages.len() - 1].subrange(0, old_pages.last().len() as int)
                    =~= old_pages.last());
            }
        } else {
            let mut page: Vec<LlmpMsg> = Vec::new();
            proof {
                lemma_page_view_push(page@, msg);
            }
            page.push(msg);
            proof {
                lemma_pages_view_push(self.pages@, page);
            }
            self.pages.push(page);
            self.last_used = len;
            let ghost pages = pages_view(self.pages@);
            assert(pages.drop_last() =~= old_pages);
            assert(pages.last() =~= seq![msg@]);
            assert(page_bytes(pages.last()) == len) by {
                assert(pages.last().drop_last() =~= Seq::<MsgView>::empty());
                assert(page_bytes(Seq::<MsgView>::empty()) == 0);
                assert(pages.last().last() == msg@);
            }
            assert(flatten(pages) =~= flatten(old_pages).push(msg@));
            assert(old_pages.last().is_prefix_of(pages[old_pages.len() - 1])) by {
                assert(pages[old_pages.len() - 1] == old_pages.last());
                assert(old_pages.last().subrange(0, old_pages.last().len() as int) =~= old_pages.last());
            }
        }
        self.next_seq = seq + 1;
        Ok(seq)
    }
}

/// The reading side of the bus: where a reader stands in a sender's pages.
#[derive(Debug, Clone, Copy, PartialEq, Eq, Structural)]
pub struct LlmpReceiver {
    page: usize,
    idx: usize,
}

impl LlmpReceiver {
    /// The page the reader stands on.
    pub closed spec fn page_at(&self) -> nat {
        self.page as nat
    }

    /// Whether the reader stands inside the pages of `sender`.
    pub open spec fn reads(&self, sender: &LlmpSender) -> bool {
        self.page_at() < sender@.pages.len() && self.idx_at() <= sender@.pages[self.page_at() as int].len()
    }

    /// The place on its page the reader stands at.
    pub closed spec fn idx_at(&self) -> nat {
        self.idx as nat
    }

    /// How many messages the reader has gone past, in `sender`'s pages.
    pub open spec fn position(&self, sender: &LlmpSender) -> nat {
        before_page(sender@.pages, self.page_at() as int) + self.idx_at()
    }

    /// A reader at the first message.
    pub fn new() -> (r: Self)
        ensures
            r.page_at() == 0,
            r.idx_at() == 0,
    {
        LlmpReceiver { page: 0, idx: 0 }
    }

    /// The next message, following the chain to the next page where this
    /// one is read out; `None` where the reader has read every message.
    pub fn recv(&mut self, sender: &LlmpSender) -> (r: Option<LlmpMsg>)
        requires
            sender.wf(),
            old(self).reads(sender),
        ensures
            final(self).reads(sender),
            old(self).position(sender) < sender.sent().len() ==> {
                &&& r matches Some(m) && m@ == sender.sent()[old(self).position(sender) as int]
                &&& final(self).position(sender) == old(self).position(sender) + 1
            },
            old(self).position(sender) >= sender.sent().len() ==> r is None && final(self).position(
                sender,
            ) == old(self).position(sender),
    {
        let ghost pages = sender@.pages;
        proof {
            lemma_flatten_len(pages);
            if self.page + 1 < pages.len() {
                lemma_flatten_prefix(pages, self.page as int);
            }
        }
        if self.idx == sender.pages[self.page].len() && self.page < sender.pages.len() - 1 {
            self.page = self.page + 1;
            self.idx = 0;
            assert(pages[self.page as int].len() > 0);
        }
        proof {
            if (self.page as int) < pages.len() - 1 {
                lemma_flatten_prefix(pages, self.page as int);
                lemma_before_page_grows(pages, self.page as int + 1, pages.len() - 1);
            }
        }
        if self.idx < sender.pages[self.page].len() {
            let m = &sender.pages[self.page][self.idx];
            let copy = LlmpMsg { tag: m.tag, seq: m.seq, buf: copy_bytes(m.buf.as_slice()) };
            proof {
                lemma_flatten_index(pages, self.page as int, self.idx as int);
                assert(pages[self.page as int][self.idx as int] == m@);
            }
            self.idx = self.idx + 1;
            Some(copy)
        } else {
            None
        }
    }
}

/// Pages later in the chain start no earlier.
proof fn lemma_before_page_grows(pages: Seq<Seq<MsgView>>, i: int, k: int)
    requires
        0 <= i <= k < pages.len(),
    ensures
        before_page(pages, i) <= before_page(pages, k),
    decreases k - i,
{
    if i < k {
        lemma_before_page_grows(pages, i, k - 1);
        lemma_flatten_prefix(pages, k - 1);
    }
}

/// A reader standing in a sender's pages keeps its place, and the number of
/// messages it has gone past, while the sender appends messages.
pub proof fn lemma_reader_survives_send(before: &LlmpSender, after: &LlmpSender, reader: LlmpReceiver)
    requires
        before.wf(),
        appended(before@, after@),
        reader.reads(before),
    ensures
        reader.reads(after),
        reader.position(after) == reader.position(before),
{
    let p = reader.page_at() as int;
    assert(after@.pages.subrange(0, p) =~= before@.pages.subrange(0, p));
    if p < before@.pages.len() - 1 {
        assert(after@.pages[p] == before@.pages[p]);
    }
}

} // verus!
