use vstd::prelude::*;
use vstd::arithmetic::div_mod::lemma_mod_breakdown;
use vstd::arithmetic::power2::lemma2_to64;
use vstd::arithmetic::power2::lemma_pow2_pos;
use vstd::arithmetic::power2::lemma_pow2_unfold;
use vstd::arithmetic::power2::pow2;
use vstd::bits::lemma_u64_shr_is_div;
use crate::model::GateKind;
use crate::model::Qubit;
use crate::model::and_model;
use crate::model::bit_of;
use crate::model::cnot_model;
use crate::model::gate_model;
use crate::model::gate_range_model;
use crate::model::init_bits;
use crate::model::lemma_pack_bits_push;
use crate::model::measured_bits;
use crate::model::or_model;
use crate::model::pack_bits;
use crate::model::toffoli_model;

verus! {

/// Packing the low `n` bits of `v`, least significant first, recovers
/// `v` modulo `2^n`.
pub proof fn lemma_pack_low_bits(v: u64, n: nat)
    requires
        n <= 63,
    ensures
        pack_bits(Seq::new(n, |i: int| bit_of(v, i))) == (v as nat) % pow2(n),
    decreases n,
{
    lemma2_to64();
    if n == 0 {
        assert(Seq::new(0, |i: int| bit_of(v, i)) =~= Seq::<bool>::empty());
        assert((v as int) % 1 == 0) by (nonlinear_arith);
    } else {
        let m = (n - 1) as nat;
        let prefix = Seq::new(m, |i: int| bit_of(v, i));
        let b = bit_of(v, m as int);
        assert(Seq::new(n, |i: int| bit_of(v, i)) =~= prefix.push(b));
        lemma_pack_low_bits(v, m);
        lemma_pack_bits_push(prefix, b);
        lemma_pow2_pos(m);
        lemma_pow2_unfold(n);
        lemma_u64_shr_is_div(v, m as u64);
        let d: u64 = v >> (m as u64);
        assert((d & 1) == d % 2) by (bit_vector);
        lemma_mod_breakdown(v as int, pow2(m) as int, 2);
        assert((v as int) % (pow2(m) as int * 2) == pow2(m) * (((v as int) / (pow2(m) as int)) % 2)
            + (v as int) % (pow2(m) as int));
        assert((v as int) / (pow2(m) as int) == d as int);
        assert((d as int) % 2 == (if b {
            1int
        } else {
            0int
        }));
    }
}

/// Law: a register constructed over `n` qubits with initial value `v`
/// and measured at once over its full view yields `v mod 2^n`.
///
/// `QuRegObject::new(n, v, id)` models the register as
/// `init_bits(v as u64, n)` with the full view at physical indices
/// `[0, n)`, and `QuRegObject::measure` returns the packed measured
/// bits of that range.  Every qubit of a fresh register is definite,
/// so the packed value is `v mod 2^n` whatever the engine would have
/// reported for undetermined qubits.
pub proof fn lemma_create_then_measure(v: u64, n: nat, reported: u64)
    requires
        n <= 63,
    ensures
        pack_bits(measured_bits(init_bits(v, n), 0, n, reported)) == (v as nat) % pow2(n),
{
    assert(measured_bits(init_bits(v, n), 0, n, reported) =~= Seq::new(
        n,
        |i: int| bit_of(v, i),
    ));
    lemma_pack_low_bits(v, n);
}

/// Law: applying NOT twice leaves any qubit's model as it was — on a
/// definite basis qubit the two bit flips cancel, so its measured
/// value is restored.
pub proof fn lemma_not_twice(q: Qubit)
    ensures
        gate_model(GateKind::SigmaX, gate_model(GateKind::SigmaX, q)) == q,
{
}

/// Law: applying NOT twice over the same range restores the whole
/// model; `QuRegObject::not` applies the Pauli X gate over exactly the
/// view's range.
pub proof fn lemma_not_twice_range(m: Seq<Qubit>, s: int, e: int)
    ensures
        gate_range_model(GateKind::SigmaX, gate_range_model(GateKind::SigmaX, m, s, e), s, e)
            == m,
{
    assert(gate_range_model(
        GateKind::SigmaX,
        gate_range_model(GateKind::SigmaX, m, s, e),
        s,
        e,
    ) =~= m);
}

/// Law: for definite basis operands, the scratch qubit computed by
/// `and` holds their logical AND.
pub proof fn lemma_and_classical(a: bool, b: bool)
    ensures
        and_model(Qubit::Definite(a), Qubit::Definite(b)) == (Qubit::Definite(a && b)),
{
}

/// Law: for definite basis operands, the scratch qubit computed by
/// `or` holds their logical OR.
pub proof fn lemma_or_classical(a: bool, b: bool)
    ensures
        or_model(Qubit::Definite(a), Qubit::Definite(b)) == (Qubit::Definite(a || b)),
{
}

/// Law: for definite basis operands with values `va` and `vb`,
/// measuring the scratch qubit computed by `and` yields their logical
/// AND, whatever the engine would have reported.
///
/// `and`'s contract places `and_model(..)` at the new qubit's physical
/// index `s`, and `measure`'s contract on that one-qubit view returns
/// `pack_bits(measured_bits(m, s, 1, reported))`; this lemma pins that
/// value to `va & vb`.
pub proof fn lemma_and_then_measure(m: Seq<Qubit>, s: int, va: bool, vb: bool, reported: u64)
    requires
        0 <= s < m.len(),
        m[s] == and_model(Qubit::Definite(va), Qubit::Definite(vb)),
    ensures
        pack_bits(measured_bits(m, s, 1, reported)) == (if va && vb {
            1nat
        } else {
            0nat
        }),
{
    lemma_and_classical(va, vb);
    lemma_measure_single_definite(m, s, va && vb, reported);
}

/// Law: for definite basis operands with values `va` and `vb`,
/// measuring the scratch qubit computed by `or` yields their logical
/// OR, whatever the engine would have reported.
///
/// `or`'s contract places `or_model(..)` at the new qubit's physical
/// index `s`, and `measure`'s contract on that one-qubit view returns
/// `pack_bits(measured_bits(m, s, 1, reported))`; this lemma pins that
/// value to `va | vb`.
pub proof fn lemma_or_then_measure(m: Seq<Qubit>, s: int, va: bool, vb: bool, reported: u64)
    requires
        0 <= s < m.len(),
        m[s] == or_model(Qubit::Definite(va), Qubit::Definite(vb)),
    ensures
        pack_bits(measured_bits(m, s, 1, reported)) == (if va || vb {
            1nat
        } else {
            0nat
        }),
{
    lemma_or_classical(va, vb);
    lemma_measure_single_definite(m, s, va || vb, reported);
}

/// Measuring a one-qubit range whose qubit is definite with value `b`
/// packs to exactly `b`, whatever the engine would have reported.
pub proof fn lemma_measure_single_definite(m: Seq<Qubit>, s: int, b: bool, reported: u64)
    requires
        0 <= s < m.len(),
        m[s] == (Qubit::Definite(b)),
    ensures
        pack_bits(measured_bits(m, s, 1, reported)) == (if b {
            1nat
        } else {
            0nat
        }),
{
    reveal_with_fuel(pack_bits, 3);
    assert(measured_bits(m, s, 1, reported) =~= seq![b]);
    assert(seq![b].drop_first() =~= Seq::<bool>::empty());
}

/// Law: folding the AND of the same definite operands back into a
/// previously computed `and` qubit returns it to definite zero, so the
/// release inside `iand` succeeds on a matched compute/uncompute pair.
pub proof fn lemma_and_uncompute(a: bool, b: bool)
    ensures
        toffoli_model(
            Qubit::Definite(a),
            Qubit::Definite(b),
            and_model(Qubit::Definite(a), Qubit::Definite(b)),
        ) == (Qubit::Definite(false)),
{
}

/// Law: running the `ior` gate sequence over a previously computed
/// `or` qubit of the same definite operands returns it to definite
/// zero, so the release inside `ior` succeeds on a matched
/// compute/uncompute pair.
pub proof fn lemma_or_uncompute(a: bool, b: bool)
    ensures
        ({
            let qa = Qubit::Definite(a);
            let qb = Qubit::Definite(b);
            cnot_model(qa, cnot_model(qb, toffoli_model(qa, qb, or_model(qa, qb)))) == (
            Qubit::Definite(false))
        }),
{
}

} // verus!
