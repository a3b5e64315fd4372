use vstd::prelude::*;
use vstd::arithmetic::power2::pow2;
use vstd::arithmetic::power2::lemma_pow2_unfold;

verus! {

/// What the runtime knows of one physical qubit.
///
/// This is a conservative classical-basis abstraction of the amplitude
/// state held by the engine.  `Definite(b)` means the qubit is in the
/// computational basis state `b`, possibly up to a global or relative
/// phase, and therefore measures to `b` with certainty.  `Superposed`
/// claims nothing: the qubit may be in superposition or entangled, and
/// its measured value is whatever the engine reports.
#[derive(Clone, Copy, Debug, PartialEq, Eq, Structural)]
pub enum Qubit {
    Definite(bool),
    Superposed,
}

/// The elementary single-qubit gate kinds, one dispatch tag per gate.
///
/// `RotateX`, `RotateY`, `RotateZ`, `Phase` and `PhaseBy` are
/// parametrized by a rotation angle.  The angle is real-valued and never
/// enters the runtime: the driver that forwards [`EngineOp`]s to the
/// engine supplies it alongside the emitted operation.  The angle does
/// not affect the classical-basis model (see [`gate_model`]).
#[derive(Clone, Copy, Debug, PartialEq, Eq, Structural)]
pub enum GateKind {
    Hadamard,
    SigmaX,
    SigmaY,
    SigmaZ,
    RotateX,
    RotateY,
    RotateZ,
    Phase,
    PhaseBy,
}

/// One primitive operation for the quantum state engine, addressed by
/// absolute physical qubit index at the moment the operation was decided.
#[derive(Clone, Copy, Debug, PartialEq, Eq, Structural)]
pub enum EngineOp {
    /// Apply the single-qubit gate `kind` to the qubit at `target`.
    Gate { kind: GateKind, target: usize },
    /// Flip `target` where `control` is set.
    CNot { control: usize, target: usize },
    /// Flip `target` where both controls are set.
    Toffoli { control1: usize, control2: usize, target: usize },
    /// Conditionally shift the phase of `target` on `control`.
    CondPhase { control: usize, target: usize },
    /// As `CondPhase`, with the angle supplied by the driver.
    CondPhaseBy { control: usize, target: usize },
    /// Append one scratch qubit, initialized to zero, at the top of the
    /// scratch region (physical index: the previous scratch count); every
    /// main qubit shifts up by one.
    AddScratch,
    /// Measure the qubit at `target` and discard it; every qubit above it
    /// shifts down by one.
    MeasureBit { target: usize },
    /// Measure the qubits in `[start, end)`, keeping them.
    MeasureRange { start: usize, end: usize },
}

/// Basis-state bit flip: what the Pauli X and Y gates do to a basis
/// qubit, up to phase.
pub open spec fn flip(q: Qubit) -> Qubit {
    match q {
        Qubit::Definite(b) => Qubit::Definite(!b),
        Qubit::Superposed => Qubit::Superposed,
    }
}

/// How one single-qubit gate transforms the model of its target.
///
/// X and Y flip basis states (Y adds only a phase beyond the flip); Z and
/// the phase and z-rotation gates are diagonal in the computational
/// basis, so a definite qubit stays definite with the same value; the
/// Hadamard gate and the x- and y-rotations drive a basis state into
/// superposition in general, so the model gives the qubit up.
pub open spec fn gate_model(kind: GateKind, q: Qubit) -> Qubit {
    match kind {
        GateKind::SigmaX => flip(q),
        GateKind::SigmaY => flip(q),
        GateKind::SigmaZ => q,
        GateKind::RotateZ => q,
        GateKind::Phase => q,
        GateKind::PhaseBy => q,
        GateKind::Hadamard => Qubit::Superposed,
        GateKind::RotateX => Qubit::Superposed,
        GateKind::RotateY => Qubit::Superposed,
    }
}

/// How a controlled-NOT transforms the model of its target: a definite
/// zero control leaves the target alone, a definite one control flips it,
/// and a superposed control entangles the target, so the model gives the
/// target up.  The control itself is never changed.
pub open spec fn cnot_model(control: Qubit, target: Qubit) -> Qubit {
    match control {
        Qubit::Definite(c) => if c {
            flip(target)
        } else {
            target
        },
        Qubit::Superposed => Qubit::Superposed,
    }
}

/// How a Toffoli gate transforms the model of its target: any definite
/// zero control blocks the flip outright; two definite one controls flip
/// the target; otherwise a superposed control may entangle the target, so
/// the model gives it up.  The controls are never changed.
pub open spec fn toffoli_model(control1: Qubit, control2: Qubit, target: Qubit) -> Qubit {
    if control1 == (Qubit::Definite(false)) || control2 == (Qubit::Definite(false)) {
        target
    } else if control1 == (Qubit::Definite(true)) && control2 == (Qubit::Definite(true)) {
        flip(target)
    } else {
        Qubit::Superposed
    }
}

/// The model of the scratch qubit returned by `and`: a Toffoli applied
/// to a fresh zero qubit with the two operands as controls.
pub open spec fn and_model(a: Qubit, b: Qubit) -> Qubit {
    toffoli_model(a, b, Qubit::Definite(false))
}

/// The model of the scratch qubit returned by `or`: two controlled-NOTs
/// and a Toffoli applied in order to a fresh zero qubit, the standard
/// reversible OR construction.
pub open spec fn or_model(a: Qubit, b: Qubit) -> Qubit {
    toffoli_model(a, b, cnot_model(b, cnot_model(a, Qubit::Definite(false))))
}

/// The classical value a measurement reports for one qubit: a definite
/// qubit measures to its value with certainty; for a superposed qubit the
/// engine's reported outcome stands.
pub open spec fn measured_bit(q: Qubit, reported: bool) -> bool {
    match q {
        Qubit::Definite(b) => b,
        Qubit::Superposed => reported,
    }
}

/// Bit `i` of `v`, for `0 <= i < 64`.
pub open spec fn bit_of(v: u64, i: int) -> bool {
    ((v >> (i as u64)) & 1) == 1
}

/// The model of a freshly constructed register of `n` qubits holding the
/// binary encoding of `v`: qubit `i` is definite with bit `i` of `v`.
pub open spec fn init_bits(v: u64, n: nat) -> Seq<Qubit> {
    Seq::new(n, |i: int| Qubit::Definite(bit_of(v, i)))
}

/// The integer encoded by a bit sequence, least significant bit first.
pub open spec fn pack_bits(bits: Seq<bool>) -> nat
    decreases bits.len(),
{
    if bits.len() == 0 {
        0
    } else {
        (if bits[0] {
            1nat
        } else {
            0nat
        }) + 2 * pack_bits(bits.drop_first())
    }
}

/// A whole model sequence with one gate applied to the qubits in
/// `[start, end)` and every other qubit untouched.
pub open spec fn gate_range_model(kind: GateKind, m: Seq<Qubit>, start: int, end: int) -> Seq<
    Qubit,
> {
    Seq::new(m.len(), |i: int| if start <= i && i < end {
        gate_model(kind, m[i])
    } else {
        m[i]
    })
}

/// The engine operations emitted for one gate over `[start, end)`, one
/// per qubit, in ascending index order.
pub open spec fn gate_ops(kind: GateKind, start: int, end: int) -> Seq<EngineOp> {
    Seq::new(if start <= end {
        (end - start) as nat
    } else {
        0
    }, |j: int| (EngineOp::Gate { kind: kind, target: (start + j) as usize }))
}

/// The classical bits a measurement of `len` qubits starting at `start`
/// reports, least significant first: definite qubits measure to their
/// value; bit `j` of `reported` stands for the qubit at `start + j`
/// where the model is superposed.
pub open spec fn measured_bits(m: Seq<Qubit>, start: int, len: nat, reported: u64) -> Seq<bool> {
    Seq::new(len, |j: int| measured_bit(m[start + j], bit_of(reported, j)))
}

/// The model after measuring `len` qubits starting at `start`:
/// measurement collapses each of them to the definite value it reported,
/// and leaves every other qubit untouched.
pub open spec fn collapsed(m: Seq<Qubit>, start: int, len: nat, reported: u64) -> Seq<Qubit> {
    Seq::new(m.len(), |i: int| if start <= i && i < start + len {
        Qubit::Definite(measured_bits(m, start, len, reported)[i - start])
    } else {
        m[i]
    })
}

/// The character rendering one modeled qubit in a state dump: `0` and
/// `1` for definite qubits, `?` where the model gives no value.
pub open spec fn qubit_char(q: Qubit) -> char {
    match q {
        Qubit::Definite(b) => if b {
            '1'
        } else {
            '0'
        },
        Qubit::Superposed => '?',
    }
}

/// Exec mirror of [`gate_model`].
pub fn gate_apply(kind: GateKind, q: Qubit) -> (r: Qubit)
    ensures
        r == gate_model(kind, q),
{
    match kind {
        GateKind::SigmaX | GateKind::SigmaY => match q {
            Qubit::Definite(b) => Qubit::Definite(!b),
            Qubit::Superposed => Qubit::Superposed,
        },
        GateKind::SigmaZ | GateKind::RotateZ | GateKind::Phase | GateKind::PhaseBy => q,
        GateKind::Hadamard | GateKind::RotateX | GateKind::RotateY => Qubit::Superposed,
    }
}

/// Exec mirror of [`cnot_model`].
pub fn cnot_apply(control: Qubit, target: Qubit) -> (r: Qubit)
    ensures
        r == cnot_model(control, target),
{
    match control {
        Qubit::Definite(c) => if c {
            gate_apply(GateKind::SigmaX, target)
        } else {
            target
        },
        Qubit::Superposed => Qubit::Superposed,
    }
}

/// Exec mirror of [`toffoli_model`].
pub fn toffoli_apply(control1: Qubit, control2: Qubit, target: Qubit) -> (r: Qubit)
    ensures
        r == toffoli_model(control1, control2, target),
{
    if control1 == (Qubit::Definite(false)) || control2 == (Qubit::Definite(false)) {
        target
    } else if control1 == (Qubit::Definite(true)) && control2 == (Qubit::Definite(true)) {
        gate_apply(GateKind::SigmaX, target)
    } else {
        Qubit::Superposed
    }
}

/// Exec mirror of [`measured_bit`].
pub fn measured_apply(q: Qubit, reported: bool) -> (r: bool)
    ensures
        r == measured_bit(q, reported),
{
    match q {
        Qubit::Definite(b) => b,
        Qubit::Superposed => reported,
    }
}

/// Appending a bit on the most significant side adds its weighted value.
pub proof fn lemma_pack_bits_push(bits: Seq<bool>, b: bool)
    ensures
        pack_bits(bits.push(b)) == pack_bits(bits) + (if b {
            pow2(bits.len())
        } else {
            0
        }),
    decreases bits.len(),
{
    vstd::arithmetic::power2::lemma2_to64();
    reveal_with_fuel(pack_bits, 3);
    if bits.len() == 0 {
        assert(bits.push(b).drop_first() =~= Seq::<bool>::empty());
        assert(bits.push(b)[0] == b);
        assert(pack_bits(bits.push(b)) == (if b {
            1nat
        } else {
            0nat
        }));
    } else {
        assert(bits.push(b).drop_first() =~= bits.drop_first().push(b));
        lemma_pack_bits_push(bits.drop_first(), b);
        lemma_pow2_unfold(bits.len());
        assert(bits.push(b)[0] == bits[0]);
        assert(pack_bits(bits.push(b)) == (if bits[0] {
            1nat
        } else {
            0nat
        }) + 2 * pack_bits(bits.drop_first().push(b)));
    }
}

/// A sequence of `n` bits encodes a value below `2^n`.
pub proof fn lemma_pack_bits_bound(bits: Seq<bool>)
    ensures
        pack_bits(bits) < pow2(bits.len()),
    decreases bits.len(),
{
    vstd::arithmetic::power2::lemma2_to64();
    if bits.len() > 0 {
        lemma_pack_bits_bound(bits.drop_first());
        lemma_pow2_unfold(bits.len());
    }
}

/// `pow2` only grows with its exponent.
pub proof fn lemma_pow2_le(a: nat, b: nat)
    requires
        a <= b,
    ensures
        pow2(a) <= pow2(b),
{
    if a < b {
        vstd::arithmetic::power2::lemma_pow2_strictly_increases(a, b);
    }
}

} // verus!
