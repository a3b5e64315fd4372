use vstd::prelude::*;

verus! {

/// A fault raised by a register operation.
///
/// Every fault is reported as a value so that a user program's mistake
/// (bad slice bounds, a scratch qubit released out of turn) can be
/// recovered from instead of tearing the whole process down.  Two of
/// the kinds — `ForeignRegister` and `NotASingleQubit` — point to a
/// defect in whatever drives the runtime rather than to user input; a
/// driver will usually treat those as fatal, with the operation and
/// offending view in hand for the report.
#[derive(Clone, Copy, Debug, PartialEq, Eq, Structural)]
pub enum QuRegError {
    /// `get` was given an index at or past the end of the view.
    IndexOutOfRange,
    /// `slice` was given bounds that do not select a nonempty window
    /// inside the view.
    InvalidSlice,
    /// `slice` or `get` was applied to a scratch view; scratch views are
    /// single qubits and cannot be windowed.
    ScratchNotSliceable,
    /// The scratch qubit being released is not the most recently
    /// allocated one; scratch qubits form a strict LIFO stack.
    ScratchOrderViolation,
    /// The scratch qubit being released measured to one: information
    /// leaked into it and it was never uncomputed back to zero.  The
    /// qubit stays allocated, now collapsed to definite one, so it can
    /// still be uncomputed and released.
    ScratchNotCleared,
    /// A view does not address the qubits of the state it was used with:
    /// it was made for a different state instance, or its qubits have
    /// since been released.
    ForeignRegister,
    /// The target of a controlled gate must be a view of exactly one
    /// qubit.
    NotASingleQubit,
}

} // verus!
