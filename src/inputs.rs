use vstd::prelude::*;

verus! {

/// A unit of data fed to the target.
pub trait Input: Sized {
    /// A file name for this input when it is stored, derived from its content
    /// where the input knows how; by default, its index in the corpus.
    fn generate_name(&self, idx: usize) -> String {
        idx.to_string()
    }

    /// Whether `after` is this input once `wrapped_as_testcase` ran. An input
    /// type that states nothing admits any result.
    open spec fn wrapped(&self, after: Self) -> bool {
        true
    }

    /// Called once, just before the input becomes a corpus entry.
    fn wrapped_as_testcase(&mut self)
        ensures
            old(self).wrapped(*final(self)),
    ;
}

/// An input that can hand the target the bytes it should run on.
pub trait HasTargetBytes {
    /// Whether `bytes` are the bytes the target runs on for this input. An
    /// input type that states nothing admits any bytes.
    open spec fn target_is(&self, bytes: Seq<u8>) -> bool {
        true
    }

    /// The bytes the target runs on.
    fn target_bytes(&self) -> (r: Vec<u8>)
        ensures
            self.target_is(r@),
    ;
}

/// An input backed by a vector of raw bytes.
pub trait HasBytesVec {
    /// The raw bytes.
    fn bytes(&self) -> &[u8];

    /// The raw bytes, for mutation in place.
    fn bytes_mut(&mut self) -> &mut Vec<u8>;
}

/// Something with a length.
pub trait HasLen {
    /// The length.
    fn len(&self) -> usize;

    /// Whether the length is zero.
    fn is_empty(&self) -> bool {
        self.len() == 0
    }
}

} // verus!
