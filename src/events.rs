use vstd::prelude::*;

use crate::exit_kind::ExitKind;

verus! {

/// A message between a worker and the broker.
#[derive(Debug)]
pub enum Event {
    /// A worker kept a new corpus entry.
    NewTestcase {
        /// The bytes the target ran on.
        input: Vec<u8>,
        /// How the run ended.
        exit_kind: ExitKind,
        /// The worker's corpus size after adding the entry.
        corpus_size: usize,
    },
    /// Progress of a worker.
    UpdateStats {
        /// Runs so far.
        executions: u64,
        /// When the report was made, in seconds since the worker started.
        time: u64,
    },
    /// A worker found a solution.
    Objective {
        /// The worker's number of solutions after adding it.
        objective_size: usize,
    },
}

/// `n` as four bytes, most significant first.
pub open spec fn be_bytes(n: u32) -> Seq<u8> {
    seq![(n >> 24u32) as u8, ((n >> 16u32) & 0xff) as u8, ((n >> 8u32) & 0xff) as u8, (n & 0xff) as u8]
}

/// The number four bytes stand for, most significant first.
pub open spec fn be_value(b0: u8, b1: u8, b2: u8, b3: u8) -> u32 {
    ((b0 as u32) << 24u32) | ((b1 as u32) << 16u32) | ((b2 as u32) << 8u32) | (b3 as u32)
}

/// A message on the wire: the body's length as a big-endian 32-bit number,
/// then the body.
pub open spec fn framed(body: Seq<u8>) -> Seq<u8> {
    be_bytes(body.len() as u32) + body
}

/// The length a frame header announces.
pub open spec fn announced(bytes: Seq<u8>) -> nat {
    be_value(bytes[0], bytes[1], bytes[2], bytes[3]) as nat
}

/// The body of the frame that starts `bytes`, if `bytes` holds a whole one.
pub open spec fn unframed(bytes: Seq<u8>) -> Option<Seq<u8>> {
    if bytes.len() >= 4 && bytes.len() - 4 >= announced(bytes) {
        Some(bytes.subrange(4, 4 + announced(bytes) as int))
    } else {
        None
    }
}

proof fn lemma_be_round_trip(n: u32)
    ensures
        be_value(
            (n >> 24u32) as u8,
            ((n >> 16u32) & 0xff) as u8,
            ((n >> 8u32) & 0xff) as u8,
            (n & 0xff) as u8,
        ) == n,
{
    assert(((((n >> 24u32) as u8) as u32) << 24u32) | (((((n >> 16u32) & 0xff) as u8) as u32)
        << 16u32) | (((((n >> 8u32) & 0xff) as u8) as u32) << 8u32) | (((n & 0xff) as u8) as u32)
        == n) by (bit_vector);
}

/// Reading back a framed body gives the body, whatever follows the frame.
pub proof fn lemma_frame_round_trip(body: Seq<u8>, rest: Seq<u8>)
    requires
        body.len() <= u32::MAX,
    ensures
        unframed(framed(body) + rest) == Some(body),
{
    let n = body.len() as u32;
    lemma_be_round_trip(n);
    let bytes = framed(body) + rest;
    assert(bytes[0] == be_bytes(n)[0]);
    assert(bytes[1] == be_bytes(n)[1]);
    assert(bytes[2] == be_bytes(n)[2]);
    assert(bytes[3] == be_bytes(n)[3]);
    assert(announced(bytes) == body.len());
    assert(bytes.subrange(4, 4 + body.len() as int) =~= body);
}

/// The four header bytes announcing a body of `len` bytes.
pub fn length_header(len: u32) -> (r: [u8; 4])
    ensures
        r@ == be_bytes(len),
{
    let r = [(len >> 24u32) as u8, ((len >> 16u32) & 0xff) as u8, ((len >> 8u32) & 0xff) as u8, (
    len & 0xff) as u8];
    assert(r@ =~= be_bytes(len));
    r
}

/// The length a four-byte header announces.
pub fn header_length(header: &[u8; 4]) -> (r: u32)
    ensures
        r == be_value(header@[0], header@[1], header@[2], header@[3]),
{
    ((header[0] as u32) << 24u32) | ((header[1] as u32) << 16u32) | ((header[2] as u32) << 8u32)
        | (header[3] as u32)
}

/// `body` as a message on the wire.
pub fn frame(body: &[u8]) -> (r: Vec<u8>)
    requires
        body@.len() <= u32::MAX,
    ensures
        r@ == framed(body@),
{
    let header = length_header(body.len() as u32);
    let mut r: Vec<u8> = Vec::new();
    r.push(header[0]);
    r.push(header[1]);
    r.push(header[2]);
    r.push(header[3]);
    assert(r@ =~= be_bytes(body@.len() as u32));
    let ghost start = r@;
    let mut i: usize = 0;
    while i < body.len()
        invariant
            i <= body@.len(),
            r@ == start + body@.subrange(0, i as int),
        decreases body@.len() - i,
    {
        r.push(body[i]);
        i = i + 1;
        assert(r@ =~= start + body@.subrange(0, i as int));
    }
    assert(body@.subrange(0, body@.len() as int) =~= body@);
    r
}

/// The body of the frame that starts `bytes`, or `None` where `bytes` is
/// shorter than a header or than the body the header announces.
pub fn unframe(bytes: &[u8]) -> (r: Option<Vec<u8>>)
    ensures
        match r {
            Some(b) => unframed(bytes@) == Some(b@),
            None => unframed(bytes@) is None,
        },
{
    if bytes.len() < 4 {
        return None;
    }
    let header: [u8; 4] = [bytes[0], bytes[1], bytes[2], bytes[3]];
    let len = header_length(&header);
    if bytes.len() - 4 < len as usize {
        return None;
    }
    let end: usize = 4 + len as usize;
    let mut body: Vec<u8> = Vec::new();
    let mut i: usize = 4;
    while i < end
        invariant
            4 <= i <= end <= bytes@.len(),
            body@ == bytes@.subrange(4, i as int),
        decreases end - i,
    {
        body.push(bytes[i]);
        i = i + 1;
        assert(body@ =~= bytes@.subrange(4, i as int));
    }
    Some(body)
}

} // verus!
