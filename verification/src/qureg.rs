use vstd::prelude::*;
use crate::errors::QuRegError;
use crate::model::EngineOp;
use crate::model::GateKind;
use crate::model::Qubit;
use crate::model::and_model;
use crate::model::bit_of;
use crate::model::collapsed;
use crate::model::lemma_pack_bits_bound;
use crate::model::lemma_pack_bits_push;
use crate::model::lemma_pow2_le;
use crate::model::measured_bits;
use crate::model::pack_bits;
use crate::model::qubit_char;
use crate::model::cnot_apply;
use crate::model::cnot_model;
use crate::model::gate_apply;
use crate::model::gate_ops;
use crate::model::gate_range_model;
use crate::model::init_bits;
use crate::model::measured_apply;
use crate::model::measured_bit;
use crate::model::or_model;
use crate::model::toffoli_apply;
use crate::model::toffoli_model;
use vstd::arithmetic::power2::pow2;
use vstd::arithmetic::power2::lemma2_to64;
use vstd::arithmetic::power2::lemma2_to64_rest;
use vstd::arithmetic::power2::lemma_pow2_unfold;
use vstd::string::StringExecFns;

verus! {

/// Ghost mirror of [`QuRegState`]: the mathematical content of the
/// shared register state.
pub ghost struct StateModel {
    /// Identifier distinguishing this state instance from others.
    pub id: u64,
    /// Number of main register qubits; fixed for the life of the state.
    pub main_len: int,
    /// Number of live scratch qubits.
    pub scratch_count: int,
    /// The classical-basis model of every physical qubit.  Scratch
    /// qubits occupy `[0, scratch_count)` in allocation order, main
    /// qubits `[scratch_count, scratch_count + main_len)`.
    pub qubits: Seq<Qubit>,
    /// Engine operations decided on and not yet handed to a driver.
    pub pending: Seq<EngineOp>,
}

impl StateModel {
    /// Shape invariant: the physical address space is the scratch region
    /// followed by the main region, and a full measurement of the main
    /// register must pack into a nonnegative 64-bit integer.
    pub open spec fn inv(self) -> bool {
        &&& self.qubits.len() == self.scratch_count + self.main_len
        &&& 0 <= self.scratch_count
        &&& 0 <= self.main_len <= 63
        &&& self.scratch_count + self.main_len <= usize::MAX
    }

    /// The state after the scratch qubit at physical index `start` is
    /// released: measured to zero and discarded, so the scratch region
    /// shrinks by one and every qubit above `start` shifts down.
    pub open spec fn released(self, start: int) -> StateModel {
        StateModel {
            scratch_count: self.scratch_count - 1,
            qubits: self.qubits.remove(start),
            pending: self.pending.push((EngineOp::MeasureBit { target: start as usize })),
            ..self
        }
    }

    /// The state after a release attempt found the scratch qubit at
    /// physical index `start` uncleared: the measurement collapsed it
    /// to the definite one it revealed, but it stays allocated and the
    /// scratch region keeps its size, so the failure changes nothing
    /// beyond the collapse itself.
    pub open spec fn leaked(self, start: int) -> StateModel {
        StateModel {
            qubits: self.qubits.update(start, Qubit::Definite(true)),
            pending: self.pending.push(
                (EngineOp::MeasureRange { start: start as usize, end: (start + 1) as usize }),
            ),
            ..self
        }
    }
}

/// Ghost mirror of [`QuRegObject`]: a window into a state's address
/// space.
pub ghost struct ViewModel {
    /// First logical index (inclusive).
    pub start: int,
    /// Last logical index (exclusive).
    pub end: int,
    /// Whether this view addresses the scratch region.
    pub scratch: bool,
    /// Identifier of the state the view was made for.
    pub id: u64,
}

impl ViewModel {
    /// Logical length of the view.
    pub open spec fn len(self) -> int {
        self.end - self.start
    }

    /// Structural well-formedness; scratch views are single qubits.
    pub open spec fn wf(self) -> bool {
        &&& 0 <= self.start <= self.end
        &&& self.scratch ==> self.end - self.start == 1
    }

    /// Whether the view currently addresses qubits of `st`: it was made
    /// for that state and its window lies inside the region it names.
    /// A scratch view whose qubit has been released is no longer valid.
    pub open spec fn valid(self, st: StateModel) -> bool {
        &&& self.id == st.id
        &&& self.wf()
        &&& if self.scratch {
            self.end <= st.scratch_count
        } else {
            self.end <= st.main_len
        }
    }

    /// Whether the view can stand as the control of a gate: it must
    /// currently address at least one qubit of `st`; the control is its
    /// first qubit.
    pub open spec fn usable(self, st: StateModel) -> bool {
        self.valid(st) && self.len() >= 1
    }

    /// First absolute physical index.  Scratch qubits sit at the bottom
    /// of the address space and keep their position; main qubits sit
    /// above every live scratch qubit, so their translation must be
    /// recomputed whenever the scratch count may have changed.
    pub open spec fn raw_start(self, st: StateModel) -> int {
        if self.scratch {
            self.start
        } else {
            self.start + st.scratch_count
        }
    }

    /// One-past-the-last absolute physical index.
    pub open spec fn raw_end(self, st: StateModel) -> int {
        if self.scratch {
            self.end
        } else {
            self.end + st.scratch_count
        }
    }
}

/// The shared register state: the bookkeeping for one simulated quantum
/// state, together with the engine operations awaiting a driver.
///
/// There is exactly one `QuRegState` per register construction; every
/// [`QuRegObject`] made from that register addresses this one value.
pub struct QuRegState {
    id: u64,
    main_len: usize,
    scratch_count: usize,
    model: Vec<Qubit>,
    pending: Vec<EngineOp>,
}

impl View for QuRegState {
    type V = StateModel;

    closed spec fn view(&self) -> StateModel {
        StateModel {
            id: self.id,
            main_len: self.main_len as int,
            scratch_count: self.scratch_count as int,
            qubits: self.model@,
            pending: self.pending@,
        }
    }
}

/// A windowed view into a register: a contiguous logical range of either
/// the main address space or the scratch region, plus the identifier of
/// the state it belongs to.  Views are plain data and may freely alias
/// one another; every operation takes the state it acts on explicitly.
#[derive(Clone, Copy, Debug)]
pub struct QuRegObject {
    start: usize,
    end: usize,
    scratch: bool,
    id: u64,
}

impl View for QuRegObject {
    type V = ViewModel;

    closed spec fn view(&self) -> ViewModel {
        ViewModel {
            start: self.start as int,
            end: self.end as int,
            scratch: self.scratch,
            id: self.id,
        }
    }
}

impl QuRegState {
    /// Current number of live scratch qubits.
    pub fn scratch(&self) -> (r: usize)
        ensures
            r == self@.scratch_count,
    {
        self.scratch_count
    }

    /// Total number of physical qubits.
    pub fn width(&self) -> (r: usize)
        requires
            self@.inv(),
        ensures
            r == self@.qubits.len(),
    {
        self.model.len()
    }

    /// Hands the engine operations decided on so far to the caller, in
    /// the order they were decided, and empties the queue.
    pub fn take_ops(&mut self) -> (r: Vec<EngineOp>)
        ensures
            r@ == old(self)@.pending,
            final(self)@ == (StateModel { pending: Seq::<EngineOp>::empty(), ..old(self)@ }),
    {
        let mut out: Vec<EngineOp> = Vec::new();
        core::mem::swap(&mut out, &mut self.pending);
        out
    }

    /// Appends one scratch qubit, initialized to the classical zero
    /// state, at the top of the scratch region, and returns the view
    /// owning it.  Every main qubit's absolute index shifts up by one.
    fn add_scratch(&mut self) -> (r: QuRegObject)
        requires
            old(self)@.inv(),
            old(self)@.scratch_count + old(self)@.main_len < usize::MAX,
        ensures
            final(self)@.inv(),
            final(self)@ == (StateModel {
                scratch_count: old(self)@.scratch_count + 1,
                qubits: old(self)@.qubits.insert(
                    old(self)@.scratch_count,
                    Qubit::Definite(false),
                ),
                pending: old(self)@.pending.push(EngineOp::AddScratch),
                ..old(self)@
            }),
            r@ == (ViewModel {
                start: old(self)@.scratch_count,
                end: old(self)@.scratch_count + 1,
                scratch: true,
                id: old(self)@.id,
            }),
            r@.valid(final(self)@),
    {
        let pos: usize = self.scratch_count;
        self.model.insert(pos, Qubit::Definite(false));
        self.scratch_count = self.scratch_count + 1;
        self.pending.push(EngineOp::AddScratch);
        QuRegObject { start: pos, end: pos + 1, scratch: true, id: self.id }
    }
}

impl QuRegObject {
    /// Constructs a register of `size` main qubits holding the binary
    /// encoding of `init` (its low `size` bits), and returns the
    /// full-range view onto it together with the state itself.
    ///
    /// `id` is the identifier by which views of this state are told
    /// apart from views of other states; give every register a distinct
    /// one.  `size` is capped so that a full measurement packs into a
    /// nonnegative 64-bit integer.
    pub fn new(size: usize, init: i64, id: u64) -> (r: (QuRegObject, QuRegState))
        requires
            size <= 63,
        ensures
            r.1@.inv(),
            r.1@ == (StateModel {
                id: id,
                main_len: size as int,
                scratch_count: 0,
                qubits: init_bits(init as u64, size as nat),
                pending: Seq::<EngineOp>::empty(),
            }),
            r.0@ == (ViewModel { start: 0, end: size as int, scratch: false, id: id }),
            r.0@.wf(),
            r.0@.valid(r.1@),
    {
        let iv: u64 = init as u64;
        let mut bits: Vec<Qubit> = Vec::new();
        let mut i: usize = 0;
        while i < size
            invariant
                i <= size,
                size <= 63,
                bits@.len() == i,
                forall|k: int| 0 <= k < i ==> bits@[k] == (Qubit::Definite(bit_of(iv, k))),
            decreases size - i,
        {
            let one: u64 = (iv >> (i as u64)) & 1;
            bits.push(Qubit::Definite(one == 1));
            i += 1;
        }
        let st = QuRegState {
            id: id,
            main_len: size,
            scratch_count: 0,
            model: bits,
            pending: Vec::new(),
        };
        let view = QuRegObject { start: 0, end: size, scratch: false, id: id };
        proof {
            assert(st@.qubits =~= init_bits(iv, size as nat));
        }
        (view, st)
    }

    /// Logical length of the view.
    pub fn len(&self) -> (r: usize)
        requires
            self@.wf(),
        ensures
            r == self@.len(),
    {
        self.end - self.start
    }

    /// A one-qubit view of the qubit at logical index `idx`.
    ///
    /// Fails with `IndexOutOfRange` if `idx` is at or past the end of
    /// the view, and with `ScratchNotSliceable` on a scratch view.
    pub fn get(&self, idx: usize) -> (r: Result<QuRegObject, QuRegError>)
        requires
            self@.wf(),
        ensures
            idx >= self@.len() ==> r == Err::<QuRegObject, QuRegError>(QuRegError::IndexOutOfRange),
            idx < self@.len() && self@.scratch ==> r == Err::<QuRegObject, QuRegError>(
                QuRegError::ScratchNotSliceable,
            ),
            idx < self@.len() && !self@.scratch ==> (r matches Ok(v) && v@ == (ViewModel {
                start: self@.start + idx,
                end: self@.start + idx + 1,
                scratch: false,
                id: self@.id,
            })),
    {
        if idx >= self.len() {
            return Err(QuRegError::IndexOutOfRange);
        }
        self.slice(idx, idx + 1)
    }

    /// A sub-view spanning logical indices `[lb, ub)`.
    ///
    /// Fails with `ScratchNotSliceable` on a scratch view, and with
    /// `InvalidSlice` unless `lb < ub <= len`.
    pub fn slice(&self, lb: usize, ub: usize) -> (r: Result<QuRegObject, QuRegError>)
        requires
            self@.wf(),
        ensures
            self@.scratch ==> r == Err::<QuRegObject, QuRegError>(QuRegError::ScratchNotSliceable),
            !self@.scratch && !(lb < ub && ub <= self@.len()) ==> r == Err::<
                QuRegObject,
                QuRegError,
            >(QuRegError::InvalidSlice),
            !self@.scratch && lb < ub && ub <= self@.len() ==> (r matches Ok(v) && v@ == (ViewModel {
                start: self@.start + lb,
                end: self@.start + ub,
                scratch: false,
                id: self@.id,
            })),
    {
        if self.scratch {
            return Err(QuRegError::ScratchNotSliceable);
        }
        if lb >= ub || ub > self.end - self.start {
            return Err(QuRegError::InvalidSlice);
        }
        Ok(QuRegObject { start: self.start + lb, end: self.start + ub, scratch: false, id: self.id })
    }

    /// First absolute physical index the view currently addresses.
    pub fn raw_start(&self, st: &QuRegState) -> (r: usize)
        requires
            st@.inv(),
            self@.valid(st@),
        ensures
            r == self@.raw_start(st@),
    {
        if self.scratch {
            self.start
        } else {
            self.start + st.scratch_count
        }
    }

    /// One-past-the-last absolute physical index the view currently
    /// addresses.
    pub fn raw_end(&self, st: &QuRegState) -> (r: usize)
        requires
            st@.inv(),
            self@.valid(st@),
        ensures
            r == self@.raw_end(st@),
    {
        if self.scratch {
            self.end
        } else {
            self.end + st.scratch_count
        }
    }

    /// Whether the view currently addresses qubits of `st`.
    fn check_valid(&self, st: &QuRegState) -> (r: bool)
        ensures
            r == self@.valid(st@),
    {
        self.id == st.id && self.start <= self.end && (if self.scratch {
            self.end <= st.scratch_count && self.end - self.start == 1
        } else {
            self.end <= st.main_len
        })
    }

    /// Whether the view can stand as the control of a gate.
    fn check_usable(&self, st: &QuRegState) -> (r: bool)
        ensures
            r == self@.usable(st@),
    {
        self.check_valid(st) && self.end - self.start >= 1
    }

    /// Applies one elementary gate to every qubit of the view, in
    /// ascending physical index order.  The absolute indices are
    /// translated at this moment, never earlier, since the scratch
    /// count may have changed after the view was made.
    ///
    /// Fails with `ForeignRegister`, leaving the state untouched, if the
    /// view does not currently address qubits of `st`.
    pub fn apply_gate(&self, kind: GateKind, st: &mut QuRegState) -> (r: Result<(), QuRegError>)
        requires
            old(st)@.inv(),
        ensures
            final(st)@.inv(),
            !self@.valid(old(st)@) ==> r == Err::<(), QuRegError>(QuRegError::ForeignRegister)
                && final(st)@ == old(st)@,
            self@.valid(old(st)@) ==> r == Ok::<(), QuRegError>(()) && final(st)@ == (StateModel {
                qubits: gate_range_model(
                    kind,
                    old(st)@.qubits,
                    self@.raw_start(old(st)@),
                    self@.raw_end(old(st)@),
                ),
                pending: old(st)@.pending + gate_ops(
                    kind,
                    self@.raw_start(old(st)@),
                    self@.raw_end(old(st)@),
                ),
                ..old(st)@
            }),
    {
        if !self.check_valid(st) {
            return Err(QuRegError::ForeignRegister);
        }
        let s: usize = self.raw_start(st);
        let e: usize = self.raw_end(st);
        let ghost st0 = st@;
        proof {
            assert(st0.qubits =~= gate_range_model(kind, st0.qubits, s as int, s as int));
            assert(st0.pending =~= st0.pending + gate_ops(kind, s as int, s as int));
        }
        let mut i: usize = s;
        while i < e
            invariant
                s <= i <= e,
                e <= st@.qubits.len(),
                st@.inv(),
                st@ == (StateModel {
                    qubits: gate_range_model(kind, st0.qubits, s as int, i as int),
                    pending: st0.pending + gate_ops(kind, s as int, i as int),
                    ..st0
                }),
            decreases e - i,
        {
            let q: Qubit = st.model[i];
            let nq: Qubit = gate_apply(kind, q);
            st.model[i] = nq;
            st.pending.push(EngineOp::Gate { kind: kind, target: i });
            proof {
                assert(st@.qubits =~= gate_range_model(kind, st0.qubits, s as int, i + 1));
                assert(st@.pending =~= st0.pending + gate_ops(kind, s as int, i + 1));
            }
            i += 1;
        }
        Ok(())
    }

    /// Applies the Pauli X (bit-flip) gate to every qubit of the view;
    /// self-inverse.
    pub fn not(&self, st: &mut QuRegState) -> (r: Result<(), QuRegError>)
        requires
            old(st)@.inv(),
        ensures
            final(st)@.inv(),
            !self@.valid(old(st)@) ==> r == Err::<(), QuRegError>(QuRegError::ForeignRegister)
                && final(st)@ == old(st)@,
            self@.valid(old(st)@) ==> r == Ok::<(), QuRegError>(()) && final(st)@ == (StateModel {
                qubits: gate_range_model(
                    GateKind::SigmaX,
                    old(st)@.qubits,
                    self@.raw_start(old(st)@),
                    self@.raw_end(old(st)@),
                ),
                pending: old(st)@.pending + gate_ops(
                    GateKind::SigmaX,
                    self@.raw_start(old(st)@),
                    self@.raw_end(old(st)@),
                ),
                ..old(st)@
            }),
    {
        self.apply_gate(GateKind::SigmaX, st)
    }

    /// Applies a controlled-NOT with this view's single qubit as target
    /// and the first qubit of `control` as control.
    ///
    /// Fails with `ForeignRegister` if either view does not currently
    /// address qubits of `st`, and with `NotASingleQubit` if the target
    /// view is not exactly one qubit; the state is untouched on failure.
    pub fn cnot(&self, control: &QuRegObject, st: &mut QuRegState) -> (r: Result<
        (),
        QuRegError,
    >)
        requires
            old(st)@.inv(),
        ensures
            final(st)@.inv(),
            !(self@.valid(old(st)@) && control@.usable(old(st)@)) ==> r == Err::<(), QuRegError>(
                QuRegError::ForeignRegister,
            ) && final(st)@ == old(st)@,
            self@.valid(old(st)@) && control@.usable(old(st)@) && self@.len() != 1 ==> r == Err::<
                (),
                QuRegError,
            >(QuRegError::NotASingleQubit) && final(st)@ == old(st)@,
            self@.valid(old(st)@) && control@.usable(old(st)@) && self@.len() == 1 ==> r == Ok::<
                (),
                QuRegError,
            >(()) && final(st)@ == (StateModel {
                qubits: old(st)@.qubits.update(
                    self@.raw_start(old(st)@),
                    cnot_model(
                        old(st)@.qubits[control@.raw_start(old(st)@)],
                        old(st)@.qubits[self@.raw_start(old(st)@)],
                    ),
                ),
                pending: old(st)@.pending.push(
                    (EngineOp::CNot {
                        control: control@.raw_start(old(st)@) as usize,
                        target: self@.raw_start(old(st)@) as usize,
                    }),
                ),
                ..old(st)@
            }),
    {
        if !(self.check_valid(st) && control.check_usable(st)) {
            return Err(QuRegError::ForeignRegister);
        }
        if self.len() != 1 {
            return Err(QuRegError::NotASingleQubit);
        }
        let t: usize = self.raw_start(st);
        let c: usize = control.raw_start(st);
        let cq: Qubit = st.model[c];
        let tq: Qubit = st.model[t];
        let nq: Qubit = cnot_apply(cq, tq);
        st.model[t] = nq;
        st.pending.push(EngineOp::CNot { control: c, target: t });
        Ok(())
    }

    /// Applies a Toffoli gate with this view's single qubit as target
    /// and the first qubits of the two control views as controls.
    ///
    /// Fails as [`QuRegObject::cnot`] does.
    pub fn toffoli(
        &self,
        control1: &QuRegObject,
        control2: &QuRegObject,
        st: &mut QuRegState,
    ) -> (r: Result<(), QuRegError>)
        requires
            old(st)@.inv(),
        ensures
            final(st)@.inv(),
            !(self@.valid(old(st)@) && control1@.usable(old(st)@) && control2@.usable(old(st)@))
                ==> r == Err::<(), QuRegError>(QuRegError::ForeignRegister) && final(st)@ == old(st)@,
            self@.valid(old(st)@) && control1@.usable(old(st)@) && control2@.usable(old(st)@)
                && self@.len() != 1 ==> r == Err::<(), QuRegError>(QuRegError::NotASingleQubit)
                && final(st)@ == old(st)@,
            self@.valid(old(st)@) && control1@.usable(old(st)@) && control2@.usable(old(st)@)
                && self@.len() == 1 ==> r == Ok::<(), QuRegError>(()) && final(st)@ == (StateModel {
                qubits: old(st)@.qubits.update(
                    self@.raw_start(old(st)@),
                    toffoli_model(
                        old(st)@.qubits[control1@.raw_start(old(st)@)],
                        old(st)@.qubits[control2@.raw_start(old(st)@)],
                        old(st)@.qubits[self@.raw_start(old(st)@)],
                    ),
                ),
                pending: old(st)@.pending.push(
                    (EngineOp::Toffoli {
                        control1: control1@.raw_start(old(st)@) as usize,
                        control2: control2@.raw_start(old(st)@) as usize,
                        target: self@.raw_start(old(st)@) as usize,
                    }),
                ),
                ..old(st)@
            }),
    {
        if !(self.check_valid(st) && control1.check_usable(st) && control2.check_usable(st)) {
            return Err(QuRegError::ForeignRegister);
        }
        if self.len() != 1 {
            return Err(QuRegError::NotASingleQubit);
        }
        let t: usize = self.raw_start(st);
        let c1: usize = control1.raw_start(st);
        let c2: usize = control2.raw_start(st);
        let c1q: Qubit = st.model[c1];
        let c2q: Qubit = st.model[c2];
        let tq: Qubit = st.model[t];
        let nq: Qubit = toffoli_apply(c1q, c2q, tq);
        st.model[t] = nq;
        st.pending.push(EngineOp::Toffoli { control1: c1, control2: c2, target: t });
        Ok(())
    }

    /// Applies a controlled phase shift with this view's single qubit
    /// as target.  Phase gates are diagonal in the computational basis,
    /// so the classical-basis model of every qubit is unchanged.
    ///
    /// Fails as [`QuRegObject::cnot`] does.
    pub fn cphase(&self, control: &QuRegObject, st: &mut QuRegState) -> (r: Result<
        (),
        QuRegError,
    >)
        requires
            old(st)@.inv(),
        ensures
            final(st)@.inv(),
            !(self@.valid(old(st)@) && control@.usable(old(st)@)) ==> r == Err::<(), QuRegError>(
                QuRegError::ForeignRegister,
            ) && final(st)@ == old(st)@,
            self@.valid(old(st)@) && control@.usable(old(st)@) && self@.len() != 1 ==> r == Err::<
                (),
                QuRegError,
            >(QuRegError::NotASingleQubit) && final(st)@ == old(st)@,
            self@.valid(old(st)@) && control@.usable(old(st)@) && self@.len() == 1 ==> r == Ok::<
                (),
                QuRegError,
            >(()) && final(st)@ == (StateModel {
                pending: old(st)@.pending.push(
                    (EngineOp::CondPhase {
                        control: control@.raw_start(old(st)@) as usize,
                        target: self@.raw_start(old(st)@) as usize,
                    }),
                ),
                ..old(st)@
            }),
    {
        if !(self.check_valid(st) && control.check_usable(st)) {
            return Err(QuRegError::ForeignRegister);
        }
        if self.len() != 1 {
            return Err(QuRegError::NotASingleQubit);
        }
        let t: usize = self.raw_start(st);
        let c: usize = control.raw_start(st);
        st.pending.push(EngineOp::CondPhase { control: c, target: t });
        Ok(())
    }

    /// Applies a controlled phase shift by an arbitrary angle with this
    /// view's single qubit as target.  The angle is real-valued and does
    /// not enter the runtime: the driver that forwards the emitted
    /// operation supplies it to the engine.  Like every phase gate it
    /// leaves the classical-basis model unchanged.
    ///
    /// Fails as [`QuRegObject::cnot`] does.
    pub fn cphaseby(&self, control: &QuRegObject, st: &mut QuRegState) -> (r: Result<
        (),
        QuRegError,
    >)
        requires
            old(st)@.inv(),
        ensures
            final(st)@.inv(),
            !(self@.valid(old(st)@) && control@.usable(old(st)@)) ==> r == Err::<(), QuRegError>(
                QuRegError::ForeignRegister,
            ) && final(st)@ == old(st)@,
            self@.valid(old(st)@) && control@.usable(old(st)@) && self@.len() != 1 ==> r == Err::<
                (),
                QuRegError,
            >(QuRegError::NotASingleQubit) && final(st)@ == old(st)@,
            self@.valid(old(st)@) && control@.usable(old(st)@) && self@.len() == 1 ==> r == Ok::<
                (),
                QuRegError,
            >(()) && final(st)@ == (StateModel {
                pending: old(st)@.pending.push(
                    (EngineOp::CondPhaseBy {
                        control: control@.raw_start(old(st)@) as usize,
                        target: self@.raw_start(old(st)@) as usize,
                    }),
                ),
                ..old(st)@
            }),
    {
        if !(self.check_valid(st) && control.check_usable(st)) {
            return Err(QuRegError::ForeignRegister);
        }
        if self.len() != 1 {
            return Err(QuRegError::NotASingleQubit);
        }
        let t: usize = self.raw_start(st);
        let c: usize = control.raw_start(st);
        st.pending.push(EngineOp::CondPhaseBy { control: c, target: t });
        Ok(())
    }

    /// Releases this view's scratch qubit: measures it and, if it read
    /// back zero, discards it, shrinking the scratch region by one.
    ///
    /// Only the most recently allocated scratch qubit can be released;
    /// releasing any other live one fails with `ScratchOrderViolation`
    /// and leaves the state untouched.  The release reports a leak with
    /// `ScratchNotCleared` if the qubit measured to one; the region
    /// shrinks only on success, so a failed release changes nothing
    /// beyond the measurement's own collapse — the qubit stays
    /// allocated, now definite one, and the caller may uncompute it and
    /// try again.  `reported` stands in for the engine's measured value
    /// where the model cannot determine it.  On a view that is not
    /// scratch the call does nothing, mirroring the fold operations
    /// which accept a main-register target.
    pub fn remove_scratch(self, st: &mut QuRegState, reported: bool) -> (r: Result<
        (),
        QuRegError,
    >)
        requires
            old(st)@.inv(),
        ensures
            final(st)@.inv(),
            !self@.scratch ==> r == Ok::<(), QuRegError>(()) && final(st)@ == old(st)@,
            self@.scratch && self@.len() != 1 ==> r == Err::<(), QuRegError>(
                QuRegError::NotASingleQubit,
            ) && final(st)@ == old(st)@,
            self@.scratch && self@.len() == 1 && (self@.id != old(st)@.id || self@.end > old(st)@.scratch_count) ==> r == Err::<(), QuRegError>(QuRegError::ForeignRegister) && final(st)@ == old(st)@,
            self@.scratch && self@.len() == 1 && self@.id == old(st)@.id && self@.end < old(st)@.scratch_count ==> r == Err::<(), QuRegError>(QuRegError::ScratchOrderViolation)
                && final(st)@ == old(st)@,
            self@.scratch && self@.len() == 1 && self@.id == old(st)@.id && self@.end == old(st)@.scratch_count && !measured_bit(
                old(st)@.qubits[self@.start],
                reported,
            ) ==> r == Ok::<(), QuRegError>(()) && final(st)@ == old(st)@.released(self@.start),
            self@.scratch && self@.len() == 1 && self@.id == old(st)@.id && self@.end == old(st)@.scratch_count && measured_bit(
                old(st)@.qubits[self@.start],
                reported,
            ) ==> r == Err::<(), QuRegError>(QuRegError::ScratchNotCleared) && final(st)@ == old(
                st,
            )@.leaked(self@.start),
    {
        if !self.scratch {
            return Ok(());
        }
        if self.start > self.end || self.end - self.start != 1 {
            return Err(QuRegError::NotASingleQubit);
        }
        if self.id != st.id || self.end > st.scratch_count {
            return Err(QuRegError::ForeignRegister);
        }
        if self.end < st.scratch_count {
            return Err(QuRegError::ScratchOrderViolation);
        }
        let q: Qubit = st.model[self.start];
        let bit: bool = measured_apply(q, reported);
        if bit {
            st.model[self.start] = Qubit::Definite(true);
            st.pending.push(EngineOp::MeasureRange { start: self.start, end: self.end });
            Err(QuRegError::ScratchNotCleared)
        } else {
            st.model.remove(self.start);
            st.scratch_count = st.scratch_count - 1;
            st.pending.push(EngineOp::MeasureBit { target: self.start });
            Ok(())
        }
    }

    /// Allocates one fresh scratch qubit, applies a Toffoli with this
    /// view and `other` as its controls onto it, and returns the scratch
    /// view, now owned by the caller, who must eventually measure or
    /// release it.  For definite basis operands the new qubit holds
    /// their logical AND.
    ///
    /// Fails with `ForeignRegister`, allocating nothing, if either
    /// operand does not currently address at least one qubit of `st`.
    pub fn and(&self, other: &QuRegObject, st: &mut QuRegState) -> (r: Result<
        QuRegObject,
        QuRegError,
    >)
        requires
            old(st)@.inv(),
            old(st)@.scratch_count + old(st)@.main_len < usize::MAX,
        ensures
            final(st)@.inv(),
            !(self@.usable(old(st)@) && other@.usable(old(st)@)) ==> r == Err::<
                QuRegObject,
                QuRegError,
            >(QuRegError::ForeignRegister) && final(st)@ == old(st)@,
            self@.usable(old(st)@) && other@.usable(old(st)@) ==> (r matches Ok(v) && v@ == (
            ViewModel {
                start: old(st)@.scratch_count,
                end: old(st)@.scratch_count + 1,
                scratch: true,
                id: old(st)@.id,
            }) && v@.valid(final(st)@) && final(st)@ == (StateModel {
                scratch_count: old(st)@.scratch_count + 1,
                qubits: old(st)@.qubits.insert(
                    old(st)@.scratch_count,
                    and_model(
                        old(st)@.qubits[self@.raw_start(old(st)@)],
                        old(st)@.qubits[other@.raw_start(old(st)@)],
                    ),
                ),
                pending: old(st)@.pending + seq![
                    EngineOp::AddScratch,
                    (EngineOp::Toffoli {
                        control1: self@.raw_start(final(st)@) as usize,
                        control2: other@.raw_start(final(st)@) as usize,
                        target: old(st)@.scratch_count as usize,
                    }),
                ],
                ..old(st)@
            })),
    {
        if !(self.check_usable(st) && other.check_usable(st)) {
            return Err(QuRegError::ForeignRegister);
        }
        let ghost st0 = st@;
        let target = st.add_scratch();
        let ghost st1 = st@;
        proof {
            st0.qubits.insert_ensures(st0.scratch_count, Qubit::Definite(false));
            assert(st1.qubits[self@.raw_start(st1)] == st0.qubits[self@.raw_start(st0)]);
            assert(st1.qubits[other@.raw_start(st1)] == st0.qubits[other@.raw_start(st0)]);
            assert(st1.qubits[target@.raw_start(st1)] == Qubit::Definite(false));
        }
        let res = target.toffoli(self, other, st);
        proof {
            let a = st0.qubits[self@.raw_start(st0)];
            let b = st0.qubits[other@.raw_start(st0)];
            st0.qubits.insert_ensures(st0.scratch_count, and_model(a, b));
            assert(st@.qubits =~= st0.qubits.insert(st0.scratch_count, and_model(a, b)));
            assert(st@.pending =~= st0.pending + seq![
                EngineOp::AddScratch,
                (EngineOp::Toffoli {
                    control1: self@.raw_start(st@) as usize,
                    control2: other@.raw_start(st@) as usize,
                    target: st0.scratch_count as usize,
                }),
            ]);
        }
        match res {
            Ok(_) => Ok(target),
            Err(e) => Err(e),
        }
    }

    /// Allocates one fresh scratch qubit and applies the standard
    /// reversible OR construction onto it: controlled-NOT from this
    /// view, controlled-NOT from `other`, then a Toffoli with both as
    /// controls, in that order.  For definite basis operands the new
    /// qubit holds their logical OR.  The caller owns the returned
    /// scratch view.
    ///
    /// Fails with `ForeignRegister`, allocating nothing, if either
    /// operand does not currently address at least one qubit of `st`.
    pub fn or(&self, other: &QuRegObject, st: &mut QuRegState) -> (r: Result<
        QuRegObject,
        QuRegError,
    >)
        requires
            old(st)@.inv(),
            old(st)@.scratch_count + old(st)@.main_len < usize::MAX,
        ensures
            final(st)@.inv(),
            !(self@.usable(old(st)@) && other@.usable(old(st)@)) ==> r == Err::<
                QuRegObject,
                QuRegError,
            >(QuRegError::ForeignRegister) && final(st)@ == old(st)@,
            self@.usable(old(st)@) && other@.usable(old(st)@) ==> (r matches Ok(v) && v@ == (
            ViewModel {
                start: old(st)@.scratch_count,
                end: old(st)@.scratch_count + 1,
                scratch: true,
                id: old(st)@.id,
            }) && v@.valid(final(st)@) && final(st)@ == (StateModel {
                scratch_count: old(st)@.scratch_count + 1,
                qubits: old(st)@.qubits.insert(
                    old(st)@.scratch_count,
                    or_model(
                        old(st)@.qubits[self@.raw_start(old(st)@)],
                        old(st)@.qubits[other@.raw_start(old(st)@)],
                    ),
                ),
                pending: old(st)@.pending + seq![
                    EngineOp::AddScratch,
                    (EngineOp::CNot {
                        control: self@.raw_start(final(st)@) as usize,
                        target: old(st)@.scratch_count as usize,
                    }),
                    (EngineOp::CNot {
                        control: other@.raw_start(final(st)@) as usize,
                        target: old(st)@.scratch_count as usize,
                    }),
                    (EngineOp::Toffoli {
                        control1: self@.raw_start(final(st)@) as usize,
                        control2: other@.raw_start(final(st)@) as usize,
                        target: old(st)@.scratch_count as usize,
                    }),
                ],
                ..old(st)@
            })),
    {
        if !(self.check_usable(st) && other.check_usable(st)) {
            return Err(QuRegError::ForeignRegister);
        }
        let ghost st0 = st@;
        let target = st.add_scratch();
        let ghost st1 = st@;
        proof {
            st0.qubits.insert_ensures(st0.scratch_count, Qubit::Definite(false));
            assert(st1.qubits[self@.raw_start(st1)] == st0.qubits[self@.raw_start(st0)]);
            assert(st1.qubits[other@.raw_start(st1)] == st0.qubits[other@.raw_start(st0)]);
            assert(st1.qubits[target@.raw_start(st1)] == Qubit::Definite(false));
        }
        let r1 = target.cnot(self, st);
        let ghost st2 = st@;
        let r2 = target.cnot(other, st);
        let ghost st3 = st@;
        let r3 = target.toffoli(self, other, st);
        proof {
            let a = st0.qubits[self@.raw_start(st0)];
            let b = st0.qubits[other@.raw_start(st0)];
            let t = st0.scratch_count;
            assert(st2.qubits[self@.raw_start(st2)] == a);
            assert(st2.qubits[other@.raw_start(st2)] == b);
            assert(st3.qubits[self@.raw_start(st3)] == a);
            assert(st3.qubits[other@.raw_start(st3)] == b);
            assert(st3.qubits[t] == cnot_model(b, cnot_model(a, Qubit::Definite(false))));
            st0.qubits.insert_ensures(t, or_model(a, b));
            assert(st@.qubits =~= st0.qubits.insert(t, or_model(a, b)));
            assert(st@.pending =~= st0.pending + seq![
                EngineOp::AddScratch,
                (EngineOp::CNot {
                    control: self@.raw_start(st@) as usize,
                    target: t as usize,
                }),
                (EngineOp::CNot {
                    control: other@.raw_start(st@) as usize,
                    target: t as usize,
                }),
                (EngineOp::Toffoli {
                    control1: self@.raw_start(st@) as usize,
                    control2: other@.raw_start(st@) as usize,
                    target: t as usize,
                }),
            ]);
        }
        match (r1, r2, r3) {
            (Ok(_), Ok(_), Ok(_)) => Ok(target),
            _ => Err(QuRegError::ForeignRegister),
        }
    }

    /// Folds the AND of the two controls into this view's single qubit
    /// with a Toffoli and immediately releases the qubit as scratch.
    ///
    /// The release only succeeds if the folded qubit is back in the
    /// definite zero state, which holds when the fold uncomputes a
    /// previously computed AND of the same operands; on a fresh,
    /// result-bearing qubit the fold generally trips
    /// `ScratchOrderViolation` or `ScratchNotCleared` instead, with the
    /// Toffoli already applied and the qubit still allocated.  On a
    /// main-register view the fold is applied and nothing is released.
    pub fn iand(
        self,
        control1: &QuRegObject,
        control2: &QuRegObject,
        st: &mut QuRegState,
        reported: bool,
    ) -> (r: Result<(), QuRegError>)
        requires
            old(st)@.inv(),
        ensures
            final(st)@.inv(),
            !(self@.valid(old(st)@) && control1@.usable(old(st)@) && control2@.usable(old(st)@))
                ==> r == Err::<(), QuRegError>(QuRegError::ForeignRegister) && final(st)@ == old(
                st,
            )@,
            self@.valid(old(st)@) && control1@.usable(old(st)@) && control2@.usable(old(st)@)
                && self@.len() != 1 ==> r == Err::<(), QuRegError>(QuRegError::NotASingleQubit)
                && final(st)@ == old(st)@,
            self@.valid(old(st)@) && control1@.usable(old(st)@) && control2@.usable(old(st)@)
                && self@.len() == 1 ==> ({
                let t = self@.raw_start(old(st)@);
                let folded = StateModel {
                    qubits: old(st)@.qubits.update(
                        t,
                        toffoli_model(
                            old(st)@.qubits[control1@.raw_start(old(st)@)],
                            old(st)@.qubits[control2@.raw_start(old(st)@)],
                            old(st)@.qubits[t],
                        ),
                    ),
                    pending: old(st)@.pending.push(
                        (EngineOp::Toffoli {
                            control1: control1@.raw_start(old(st)@) as usize,
                            control2: control2@.raw_start(old(st)@) as usize,
                            target: t as usize,
                        }),
                    ),
                    ..old(st)@
                };
                &&& !self@.scratch ==> r == Ok::<(), QuRegError>(()) && final(st)@ == folded
                &&& self@.scratch && self@.end < old(st)@.scratch_count ==> r == Err::<
                    (),
                    QuRegError,
                >(QuRegError::ScratchOrderViolation) && final(st)@ == folded
                &&& self@.scratch && self@.end == old(st)@.scratch_count && !measured_bit(
                    folded.qubits[self@.start],
                    reported,
                ) ==> r == Ok::<(), QuRegError>(()) && final(st)@ == folded.released(self@.start)
                &&& self@.scratch && self@.end == old(st)@.scratch_count && measured_bit(
                    folded.qubits[self@.start],
                    reported,
                ) ==> r == Err::<(), QuRegError>(QuRegError::ScratchNotCleared) && final(st)@
                    == folded.leaked(self@.start)
            }),
    {
        let res = self.toffoli(control1, control2, st);
        match res {
            Err(e) => Err(e),
            Ok(_) => self.remove_scratch(st, reported),
        }
    }

    /// Folds the OR of the two controls into this view's single qubit —
    /// a Toffoli followed by controlled-NOTs from the second and the
    /// first control, the inverse of the `or` construction — and
    /// immediately releases the qubit as scratch.
    ///
    /// As with [`QuRegObject::iand`], the release only succeeds if the
    /// folded qubit is back in the definite zero state, as when the fold
    /// uncomputes a previously computed OR of the same operands.
    pub fn ior(
        self,
        control1: &QuRegObject,
        control2: &QuRegObject,
        st: &mut QuRegState,
        reported: bool,
    ) -> (r: Result<(), QuRegError>)
        requires
            old(st)@.inv(),
        ensures
            final(st)@.inv(),
            !(self@.valid(old(st)@) && control1@.usable(old(st)@) && control2@.usable(old(st)@))
                ==> r == Err::<(), QuRegError>(QuRegError::ForeignRegister) && final(st)@ == old(
                st,
            )@,
            self@.valid(old(st)@) && control1@.usable(old(st)@) && control2@.usable(old(st)@)
                && self@.len() != 1 ==> r == Err::<(), QuRegError>(QuRegError::NotASingleQubit)
                && final(st)@ == old(st)@,
            self@.valid(old(st)@) && control1@.usable(old(st)@) && control2@.usable(old(st)@)
                && self@.len() == 1 ==> ({
                let t = self@.raw_start(old(st)@);
                let c1 = control1@.raw_start(old(st)@);
                let c2 = control2@.raw_start(old(st)@);
                let m1 = old(st)@.qubits.update(
                    t,
                    toffoli_model(old(st)@.qubits[c1], old(st)@.qubits[c2], old(st)@.qubits[t]),
                );
                let m2 = m1.update(t, cnot_model(m1[c2], m1[t]));
                let m3 = m2.update(t, cnot_model(m2[c1], m2[t]));
                let unfolded = StateModel {
                    qubits: m3,
                    pending: old(st)@.pending + seq![
                        (EngineOp::Toffoli {
                            control1: c1 as usize,
                            control2: c2 as usize,
                            target: t as usize,
                        }),
                        (EngineOp::CNot { control: c2 as usize, target: t as usize }),
                        (EngineOp::CNot { control: c1 as usize, target: t as usize }),
                    ],
                    ..old(st)@
                };
                &&& !self@.scratch ==> r == Ok::<(), QuRegError>(()) && final(st)@ == unfolded
                &&& self@.scratch && self@.end < old(st)@.scratch_count ==> r == Err::<
                    (),
                    QuRegError,
                >(QuRegError::ScratchOrderViolation) && final(st)@ == unfolded
                &&& self@.scratch && self@.end == old(st)@.scratch_count && !measured_bit(
                    m3[self@.start],
                    reported,
                ) ==> r == Ok::<(), QuRegError>(()) && final(st)@ == unfolded.released(
                    self@.start,
                )
                &&& self@.scratch && self@.end == old(st)@.scratch_count && measured_bit(
                    m3[self@.start],
                    reported,
                ) ==> r == Err::<(), QuRegError>(QuRegError::ScratchNotCleared) && final(st)@
                    == unfolded.leaked(self@.start)
            }),
    {
        let r1 = self.toffoli(control1, control2, st);
        match r1 {
            Err(e) => Err(e),
            Ok(_) => {
                let ghost stm = st@;
                let r2 = self.cnot(control2, st);
                let r3 = self.cnot(control1, st);
                proof {
                    assert(r2 == Ok::<(), QuRegError>(()));
                    assert(r3 == Ok::<(), QuRegError>(()));
                    assert(st@.pending =~= old(st)@.pending + seq![
                        (EngineOp::Toffoli {
                            control1: control1@.raw_start(old(st)@) as usize,
                            control2: control2@.raw_start(old(st)@) as usize,
                            target: self@.raw_start(old(st)@) as usize,
                        }),
                        (EngineOp::CNot {
                            control: control2@.raw_start(old(st)@) as usize,
                            target: self@.raw_start(old(st)@) as usize,
                        }),
                        (EngineOp::CNot {
                            control: control1@.raw_start(old(st)@) as usize,
                            target: self@.raw_start(old(st)@) as usize,
                        }),
                    ]);
                }
                self.remove_scratch(st, reported)
            },
        }
    }

    /// Measures every qubit the view addresses, collapsing each to a
    /// definite classical bit, and returns the bits packed into a
    /// nonnegative integer, the view's first qubit least significant —
    /// the same encoding the register was constructed with.
    ///
    /// A definite qubit measures to its modeled value with certainty.
    /// For qubits the model cannot determine, bit `j` of `reported`
    /// stands in for the value the engine reported for the view's qubit
    /// `j`; the contract holds whatever those values are.
    ///
    /// Fails with `ForeignRegister`, leaving the state untouched, if
    /// the view does not currently address qubits of `st`.
    pub fn measure(&self, st: &mut QuRegState, reported: u64) -> (r: Result<i64, QuRegError>)
        requires
            old(st)@.inv(),
        ensures
            final(st)@.inv(),
            !self@.valid(old(st)@) ==> r == Err::<i64, QuRegError>(QuRegError::ForeignRegister)
                && final(st)@ == old(st)@,
            self@.valid(old(st)@) ==> final(st)@ == (StateModel {
                qubits: collapsed(
                    old(st)@.qubits,
                    self@.raw_start(old(st)@),
                    self@.len() as nat,
                    reported,
                ),
                pending: old(st)@.pending.push(
                    (EngineOp::MeasureRange {
                        start: self@.raw_start(old(st)@) as usize,
                        end: self@.raw_end(old(st)@) as usize,
                    }),
                ),
                ..old(st)@
            }) && r == Ok::<i64, QuRegError>(
                pack_bits(
                    measured_bits(
                        old(st)@.qubits,
                        self@.raw_start(old(st)@),
                        self@.len() as nat,
                        reported,
                    ),
                ) as i64,
            ),
    {
        if !self.check_valid(st) {
            return Err(QuRegError::ForeignRegister);
        }
        let s: usize = self.raw_start(st);
        let n: usize = self.end - self.start;
        let ghost st0 = st@;
        proof {
            lemma2_to64();
            lemma2_to64_rest();
            assert(st0.qubits =~= collapsed(st0.qubits, s as int, 0nat, reported));
            assert(measured_bits(st0.qubits, s as int, 0nat, reported) =~= Seq::<bool>::empty());
        }
        let mut acc: u64 = 0;
        let mut pow: u64 = 1;
        let mut j: usize = 0;
        while j < n
            invariant
                j <= n,
                n <= 63,
                st0.inv(),
                s + n <= st0.qubits.len(),
                st@.inv(),
                st@ == (StateModel {
                    qubits: collapsed(st0.qubits, s as int, j as nat, reported),
                    ..st0
                }),
                pow == pow2(j as nat),
                acc == pack_bits(measured_bits(st0.qubits, s as int, j as nat, reported)),
            decreases n - j,
        {
            let idx: usize = s + j;
            let q: Qubit = st.model[idx];
            let one: u64 = (reported >> (j as u64)) & 1;
            let bit: bool = measured_apply(q, one == 1);
            st.model[idx] = Qubit::Definite(bit);
            proof {
                assert(q == st0.qubits[idx as int]);
                assert(bit == measured_bit(st0.qubits[s + j], bit_of(reported, j as int)));
                assert(measured_bits(st0.qubits, s as int, (j + 1) as nat, reported) =~= measured_bits(
                    st0.qubits,
                    s as int,
                    j as nat,
                    reported,
                ).push(bit));
                lemma_pack_bits_push(measured_bits(st0.qubits, s as int, j as nat, reported), bit);
                lemma_pack_bits_bound(measured_bits(st0.qubits, s as int, j as nat, reported));
                lemma_pow2_unfold((j + 1) as nat);
                lemma_pow2_le((j + 1) as nat, 63nat);
                lemma2_to64_rest();
                assert(st@.qubits =~= collapsed(st0.qubits, s as int, (j + 1) as nat, reported));
            }
            if bit {
                acc = acc + pow;
            }
            pow = pow * 2;
            j += 1;
        }
        proof {
            lemma_pack_bits_bound(measured_bits(st0.qubits, s as int, n as nat, reported));
            lemma_pow2_le(n as nat, 63nat);
            lemma2_to64_rest();
        }
        st.pending.push(EngineOp::MeasureRange { start: s, end: s + n });
        Ok(acc as i64)
    }

    /// A textual dump of the full physical state model, for diagnostics:
    /// one character per qubit, highest physical index first, `0` and
    /// `1` for definite qubits and `?` where the model gives no value.
    pub fn to_string(&self, st: &QuRegState) -> (r: String)
        requires
            st@.inv(),
        ensures
            r@.len() == st@.qubits.len(),
            forall|i: int|
                0 <= i < r@.len() ==> r@[i] == qubit_char(st@.qubits[st@.qubits.len() - 1 - i]),
    {
        let n: usize = st.model.len();
        let mut out: String = String::new();
        let mut k: usize = n;
        while k > 0
            invariant
                k <= n,
                n == st@.qubits.len(),
                out@.len() == n - k,
                forall|i: int| 0 <= i < out@.len() ==> out@[i] == qubit_char(st@.qubits[n - 1 - i]),
            decreases k,
        {
            k = k - 1;
            let q: Qubit = st.model[k];
            proof {
                reveal_strlit("0");
                reveal_strlit("1");
                reveal_strlit("?");
            }
            match q {
                Qubit::Definite(b) => if b {
                    out.append("1");
                } else {
                    out.append("0");
                },
                Qubit::Superposed => {
                    out.append("?");
                },
            }
        }
        out
    }
}

} // verus!
