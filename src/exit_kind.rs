use vstd::prelude::*;

verus! {

/// How one run of the target ended.
#[derive(Clone, Copy, Debug, PartialEq, Eq, Structural)]
pub enum ExitKind {
    /// The target returned normally.
    Normal,
    /// The target raised a fatal signal.
    Crash,
    /// The target ran out of memory.
    Oom,
    /// The target ran longer than its time budget.
    Timeout,
    /// Two targets disagreed on the same input.
    Diff,
}

/// The value carried by a non-local jump back into the executor for `k`.
/// Zero is left for the first return of the resume point, so every exit
/// kind has a positive code.
pub open spec fn code_of(k: ExitKind) -> i32 {
    match k {
        ExitKind::Normal => 1,
        ExitKind::Crash => 2,
        ExitKind::Oom => 3,
        ExitKind::Timeout => 4,
        ExitKind::Diff => 5,
    }
}

/// The code a signal handler jumps back with after the target ended as `k`.
pub fn jump_code(k: ExitKind) -> (r: i32)
    ensures
        r == code_of(k),
        r > 0,
{
    match k {
        ExitKind::Normal => 1,
        ExitKind::Crash => 2,
        ExitKind::Oom => 3,
        ExitKind::Timeout => 4,
        ExitKind::Diff => 5,
    }
}

/// Decodes the value seen at the resume point: `None` when no jump
/// happened (or the value is not a known code), else the exit kind.
pub fn exit_kind_from_jump(code: i32) -> (r: Option<ExitKind>)
    ensures
        r matches Some(k) ==> code_of(k) == code,
        r is None <==> !(1 <= code <= 5),
{
    if code == 1 {
        Some(ExitKind::Normal)
    } else if code == 2 {
        Some(ExitKind::Crash)
    } else if code == 3 {
        Some(ExitKind::Oom)
    } else if code == 4 {
        Some(ExitKind::Timeout)
    } else if code == 5 {
        Some(ExitKind::Diff)
    } else {
        None
    }
}

/// Decoding the jump code of an exit kind gives that exit kind back, and
/// the first return of the resume point decodes to no exit kind.
pub proof fn lemma_jump_code_round_trip(k: ExitKind)
    ensures
        1 <= code_of(k) <= 5,
        code_of(k) != 0,
        forall|j: ExitKind| code_of(j) == code_of(k) ==> j == k,
{
}

} // verus!
