use vstd::prelude::*;

use crate::error::Error;

verus! {

/// An input kept in a corpus, with what was learned when it was kept.
#[derive(Debug)]
pub struct Testcase<I> {
    /// The input.
    pub input: I,
    /// The edge-map cells this input raised when it was judged.
    pub novelties: Vec<usize>,
    /// The corpus entry this input was derived from, if known.
    pub parent_id: Option<usize>,
}

impl<I> Testcase<I> {
    /// A testcase holding `input`, with nothing learned yet.
    pub fn new(input: I) -> (r: Self)
        ensures
            r.input == input,
            r.novelties@.len() == 0,
            r.parent_id is None,
    {
        Testcase { input, novelties: Vec::new(), parent_id: None }
    }
}

/// Testcases kept in memory, numbered from zero in order of addition. At
/// most one of them is current.
#[derive(Debug)]
pub struct InMemoryCorpus<I> {
    entries: Vec<Testcase<I>>,
    current: Option<usize>,
}

/// What an `InMemoryCorpus` holds.
pub struct CorpusView<I> {
    /// The testcases; each one's id is its position.
    pub entries: Seq<Testcase<I>>,
    /// The id of the current testcase, if any.
    pub current: Option<usize>,
}

impl<I> View for InMemoryCorpus<I> {
    type V = CorpusView<I>;

    closed spec fn view(&self) -> CorpusView<I> {
        CorpusView { entries: self.entries@, current: self.current }
    }
}

impl<I> InMemoryCorpus<I> {
    /// An empty corpus.
    pub fn new() -> (r: Self)
        ensures
            r@.entries.len() == 0,
            r@.current is None,
    {
        InMemoryCorpus { entries: Vec::new(), current: None }
    }

    /// The number of testcases.
    pub fn count(&self) -> (r: usize)
        ensures
            r == self@.entries.len(),
    {
        self.entries.len()
    }

    /// Adds `testcase` at the end; its id is the count before.
    pub fn add(&mut self, testcase: Testcase<I>) -> (r: usize)
        ensures
            r == old(self)@.entries.len(),
            final(self)@.entries == old(self)@.entries.push(testcase),
            final(self)@.current == old(self)@.current,
    {
        let id = self.entries.len();
        self.entries.push(testcase);
        id
    }

    /// The testcase with id `id`, or `IllegalArgument` where there is none.
    pub fn get(&self, id: usize) -> (r: Result<&Testcase<I>, Error>)
        ensures
            id < self@.entries.len() ==> r == Ok::<&Testcase<I>, Error>(&self@.entries[id as int]),
            id >= self@.entries.len() ==> r == Err::<&Testcase<I>, Error>(Error::IllegalArgument),
    {
        if id < self.entries.len() {
            Ok(&self.entries[id])
        } else {
            Err(Error::IllegalArgument)
        }
    }

    /// The id of the current testcase, if any.
    pub fn current(&self) -> (r: Option<usize>)
        ensures
            r == self@.current,
    {
        self.current
    }

    /// Makes the testcase with id `id` current, or fails with
    /// `IllegalArgument` where there is none.
    pub fn set_current(&mut self, id: usize) -> (r: Result<(), Error>)
        ensures
            final(self)@.entries == old(self)@.entries,
            id < old(self)@.entries.len() ==> r is Ok && final(self)@.current == Some(id),
            id >= old(self)@.entries.len() ==> r == Err::<(), Error>(Error::IllegalArgument)
                && final(self)@.current == old(self)@.current,
    {
        if id < self.entries.len() {
            self.current = Some(id);
            Ok(())
        } else {
            Err(Error::IllegalArgument)
        }
    }
}

/// The id the round-robin scheduler picks next in a corpus of `count`
/// testcases whose current one is `current`: the one after it, wrapping to
/// the first, or the first where none is current.
pub open spec fn queue_next(current: Option<usize>, count: nat) -> usize {
    match current {
        Some(c) => if c + 1 >= count {
            0
        } else {
            (c + 1) as usize
        },
        None => 0,
    }
}

/// Picks corpus entries in turn, one after another.
#[derive(Debug, Clone, Copy, PartialEq, Eq, Structural)]
pub struct QueueScheduler {}

impl QueueScheduler {
    pub fn new() -> (r: Self) {
        QueueScheduler {  }
    }

    /// Picks the next testcase and makes it current; `Empty` where the
    /// corpus has none.
    pub fn next<I>(&self, corpus: &mut InMemoryCorpus<I>) -> (r: Result<usize, Error>)
        ensures
            final(corpus)@.entries == old(corpus)@.entries,
            old(corpus)@.entries.len() == 0 ==> r == Err::<usize, Error>(Error::Empty)
                && final(corpus)@.current == old(corpus)@.current,
            old(corpus)@.entries.len() > 0 ==> {
                let id = queue_next(old(corpus)@.current, old(corpus)@.entries.len());
                &&& r == Ok::<usize, Error>(id)
                &&& final(corpus)@.current == Some(id)
            },
    {
        let count = corpus.count();
        if count == 0 {
            return Err(Error::Empty);
        }
        let id: usize = match corpus.current() {
            Some(c) => if c >= count - 1 {
                0
            } else {
                c + 1
            },
            None => 0,
        };
        let _ = corpus.set_current(id);
        Ok(id)
    }

    /// Called when testcase `id` was added; the queue needs nothing.
    pub fn on_add<I>(&self, corpus: &InMemoryCorpus<I>, id: usize) {
    }
}

} // verus!
