use qureg::errors::QuRegError;
use qureg::model::EngineOp;
use qureg::model::GateKind;
use qureg::qureg::QuRegObject;

#[test]
fn create_measure_returns_init() {
    let (r, mut st) = QuRegObject::new(3, 5, 1);
    assert_eq!(r.measure(&mut st, 0).unwrap(), 5);
    // Measurement of definite qubits leaves them definite.
    assert_eq!(r.measure(&mut st, 0).unwrap(), 5);
}

#[test]
fn create_measure_truncates_modulo() {
    let (r, mut st) = QuRegObject::new(2, 7, 1);
    assert_eq!(r.measure(&mut st, 0).unwrap(), 3);
}

#[test]
fn create_negative_init_uses_low_bits() {
    let (r, mut st) = QuRegObject::new(3, -1, 1);
    assert_eq!(r.measure(&mut st, 0).unwrap(), 7);
}

#[test]
fn create_zero_width() {
    let (r, mut st) = QuRegObject::new(0, 9, 1);
    assert_eq!(r.len(), 0);
    assert_eq!(r.measure(&mut st, 0).unwrap(), 0);
}

#[test]
fn slice_valid_bounds() {
    let (r, mut st) = QuRegObject::new(4, 0b1010, 1);
    let s = r.slice(1, 3).unwrap();
    assert_eq!(s.len(), 2);
    assert_eq!(s.measure(&mut st, 0).unwrap(), 0b01);
}

#[test]
fn slice_invalid_bounds() {
    let (r, _st) = QuRegObject::new(4, 0, 1);
    assert_eq!(r.slice(2, 2).unwrap_err(), QuRegError::InvalidSlice);
    assert_eq!(r.slice(1, 5).unwrap_err(), QuRegError::InvalidSlice);
    assert_eq!(r.slice(4, 4).unwrap_err(), QuRegError::InvalidSlice);
}

#[test]
fn slice_reversed_bounds() {
    let (r, _st) = QuRegObject::new(4, 0, 1);
    assert_eq!(r.slice(2, 1).unwrap_err(), QuRegError::InvalidSlice);
}

#[test]
fn get_bounds() {
    let (r, mut st) = QuRegObject::new(2, 0b10, 1);
    assert_eq!(r.get(2).unwrap_err(), QuRegError::IndexOutOfRange);
    let q = r.get(1).unwrap();
    assert_eq!(q.len(), 1);
    assert_eq!(q.measure(&mut st, 0).unwrap(), 1);
}

#[test]
fn scratch_views_cannot_be_windowed() {
    let (r, mut st) = QuRegObject::new(2, 0, 1);
    let a = r.get(0).unwrap();
    let b = r.get(1).unwrap();
    let s = a.and(&b, &mut st).unwrap();
    assert_eq!(s.get(0).unwrap_err(), QuRegError::ScratchNotSliceable);
    assert_eq!(s.slice(0, 1).unwrap_err(), QuRegError::ScratchNotSliceable);
}

#[test]
fn dump_renders_model() {
    let (r, mut st) = QuRegObject::new(2, 1, 1);
    assert_eq!(r.to_string(&st), "01");
    r.get(1).unwrap().apply_gate(GateKind::Hadamard, &mut st).unwrap();
    assert_eq!(r.to_string(&st), "?1");
}

#[test]
fn emitted_ops_use_translated_indices() {
    let (r, mut st) = QuRegObject::new(2, 0, 1);
    assert_eq!(st.take_ops(), vec![]);
    let a = r.get(0).unwrap();
    let b = r.get(1).unwrap();
    let _s = a.and(&b, &mut st).unwrap();
    // After the scratch qubit is appended, both main qubits shift up.
    assert_eq!(
        st.take_ops(),
        vec![
            EngineOp::AddScratch,
            EngineOp::Toffoli { control1: 1, control2: 2, target: 0 },
        ]
    );
    // Translation happens at every operation, never when the view is
    // made: the same view now addresses a shifted physical index.
    b.not(&mut st).unwrap();
    assert_eq!(st.take_ops(), vec![EngineOp::Gate { kind: GateKind::SigmaX, target: 2 }]);
}

#[test]
fn measure_after_hadamard_reports_engine_value() {
    // Only the qubit driven into superposition takes the reported
    // value; the untouched qubits always measure zero.
    for reported in [0u64, 1, 7] {
        let (r, mut st) = QuRegObject::new(3, 0, 1);
        r.get(0).unwrap().apply_gate(GateKind::Hadamard, &mut st).unwrap();
        let m = r.measure(&mut st, reported).unwrap();
        assert_eq!(m & !1, 0);
        assert_eq!(m & 1, (reported & 1) as i64);
    }
}

#[test]
fn measurement_collapses() {
    let (r, mut st) = QuRegObject::new(1, 0, 1);
    r.apply_gate(GateKind::Hadamard, &mut st).unwrap();
    assert_eq!(r.measure(&mut st, 1).unwrap(), 1);
    // Collapsed: a second measurement no longer consults the engine.
    assert_eq!(r.measure(&mut st, 0).unwrap(), 1);
}

#[test]
fn width_and_scratch_counters() {
    let (r, mut st) = QuRegObject::new(2, 0, 1);
    assert_eq!(st.width(), 2);
    assert_eq!(st.scratch(), 0);
    let a = r.get(0).unwrap();
    let b = r.get(1).unwrap();
    let s = a.and(&b, &mut st).unwrap();
    assert_eq!(st.width(), 3);
    assert_eq!(st.scratch(), 1);
    s.remove_scratch(&mut st, false).unwrap();
    assert_eq!(st.width(), 2);
    assert_eq!(st.scratch(), 0);
}

#[test]
fn phase_gates_keep_definite_values() {
    let (r, mut st) = QuRegObject::new(2, 0b11, 1);
    r.apply_gate(GateKind::SigmaZ, &mut st).unwrap();
    r.apply_gate(GateKind::RotateZ, &mut st).unwrap();
    r.apply_gate(GateKind::Phase, &mut st).unwrap();
    r.apply_gate(GateKind::PhaseBy, &mut st).unwrap();
    assert_eq!(r.measure(&mut st, 0).unwrap(), 3);
}

#[test]
fn sigma_y_flips_basis_values() {
    let (r, mut st) = QuRegObject::new(1, 0, 1);
    r.apply_gate(GateKind::SigmaY, &mut st).unwrap();
    assert_eq!(r.measure(&mut st, 0).unwrap(), 1);
}
