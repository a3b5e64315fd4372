use qureg::errors::QuRegError;
use qureg::model::EngineOp;
use qureg::qureg::QuRegObject;

#[test]
fn not_twice_restores_measured_value() {
    for init in [0i64, 1] {
        let (q, mut st) = QuRegObject::new(1, init, 1);
        q.not(&mut st).unwrap();
        q.not(&mut st).unwrap();
        assert_eq!(q.measure(&mut st, 0).unwrap(), init);
    }
}

#[test]
fn not_flips_measured_value() {
    let (q, mut st) = QuRegObject::new(1, 0, 1);
    q.not(&mut st).unwrap();
    assert_eq!(q.measure(&mut st, 0).unwrap(), 1);
}

#[test]
fn and_truth_table() {
    for bits in 0i64..4 {
        let (r, mut st) = QuRegObject::new(2, bits, 1);
        let a = r.get(0).unwrap();
        let b = r.get(1).unwrap();
        let s = a.and(&b, &mut st).unwrap();
        let expect = (bits & 1) & ((bits >> 1) & 1);
        assert_eq!(s.measure(&mut st, 0).unwrap(), expect);
    }
}

#[test]
fn or_truth_table() {
    for bits in 0i64..4 {
        let (r, mut st) = QuRegObject::new(2, bits, 1);
        let a = r.get(0).unwrap();
        let b = r.get(1).unwrap();
        let s = a.or(&b, &mut st).unwrap();
        let expect = (bits & 1) | ((bits >> 1) & 1);
        assert_eq!(s.measure(&mut st, 0).unwrap(), expect);
    }
}

#[test]
fn and_of_two_ones() {
    let (r, mut st) = QuRegObject::new(2, 0b11, 1);
    let a = r.get(0).unwrap();
    let b = r.get(1).unwrap();
    let s = a.and(&b, &mut st).unwrap();
    assert_eq!(s.measure(&mut st, 0).unwrap(), 1);
}

#[test]
fn or_of_zero_and_one() {
    let (r, mut st) = QuRegObject::new(2, 0b10, 1);
    let a = r.get(0).unwrap();
    let b = r.get(1).unwrap();
    let s = a.or(&b, &mut st).unwrap();
    assert_eq!(s.measure(&mut st, 0).unwrap(), 1);
}

#[test]
fn release_out_of_order_fails() {
    let (r, mut st) = QuRegObject::new(2, 0, 1);
    let a = r.get(0).unwrap();
    let b = r.get(1).unwrap();
    let s1 = a.and(&b, &mut st).unwrap();
    let s2 = a.and(&b, &mut st).unwrap();
    assert_eq!(
        s1.remove_scratch(&mut st, false).unwrap_err(),
        QuRegError::ScratchOrderViolation
    );
    // The failed release left everything in place.
    assert_eq!(st.scratch(), 2);
    // Releasing in reverse allocation order succeeds.
    s2.remove_scratch(&mut st, false).unwrap();
    s1.remove_scratch(&mut st, false).unwrap();
    assert_eq!(st.scratch(), 0);
}

#[test]
fn release_not_cleared_fails() {
    let (r, mut st) = QuRegObject::new(2, 0b11, 1);
    let a = r.get(0).unwrap();
    let b = r.get(1).unwrap();
    let s = a.and(&b, &mut st).unwrap();
    assert_eq!(
        s.remove_scratch(&mut st, false).unwrap_err(),
        QuRegError::ScratchNotCleared
    );
    // The region shrinks only on success: the leaked qubit is still
    // allocated, collapsed to the one it revealed.
    assert_eq!(st.scratch(), 1);
    assert_eq!(st.width(), 3);
    assert_eq!(s.measure(&mut st, 0).unwrap(), 1);
    // The failure is recoverable: uncompute the leak and release again.
    s.toffoli(&a, &b, &mut st).unwrap();
    s.remove_scratch(&mut st, false).unwrap();
    assert_eq!(st.scratch(), 0);
}

#[test]
fn release_of_released_qubit_fails() {
    let (r, mut st) = QuRegObject::new(2, 0, 1);
    let a = r.get(0).unwrap();
    let b = r.get(1).unwrap();
    let s = a.and(&b, &mut st).unwrap();
    let stale = s;
    s.remove_scratch(&mut st, false).unwrap();
    assert_eq!(
        stale.remove_scratch(&mut st, false).unwrap_err(),
        QuRegError::ForeignRegister
    );
}

#[test]
fn controlled_gates_refuse_foreign_views() {
    let (a, mut st1) = QuRegObject::new(1, 0, 1);
    let (b, _st2) = QuRegObject::new(1, 0, 2);
    assert_eq!(a.cnot(&b, &mut st1).unwrap_err(), QuRegError::ForeignRegister);
    assert_eq!(a.toffoli(&a, &b, &mut st1).unwrap_err(), QuRegError::ForeignRegister);
    assert_eq!(a.cphase(&b, &mut st1).unwrap_err(), QuRegError::ForeignRegister);
    assert_eq!(a.cphaseby(&b, &mut st1).unwrap_err(), QuRegError::ForeignRegister);
    assert_eq!(b.and(&a, &mut st1).unwrap_err(), QuRegError::ForeignRegister);
    assert_eq!(b.measure(&mut st1, 0).unwrap_err(), QuRegError::ForeignRegister);
}

#[test]
fn controlled_gates_need_single_qubit_target() {
    let (r, mut st) = QuRegObject::new(2, 0, 1);
    let a = r.get(0).unwrap();
    assert_eq!(r.cnot(&a, &mut st).unwrap_err(), QuRegError::NotASingleQubit);
    let b = r.get(1).unwrap();
    assert_eq!(r.toffoli(&a, &b, &mut st).unwrap_err(), QuRegError::NotASingleQubit);
}

#[test]
fn cnot_truth_table() {
    for bits in 0i64..4 {
        let (r, mut st) = QuRegObject::new(2, bits, 1);
        let t = r.get(0).unwrap();
        let c = r.get(1).unwrap();
        t.cnot(&c, &mut st).unwrap();
        let expect = ((bits & 1) ^ ((bits >> 1) & 1)) | (bits & 0b10);
        assert_eq!(r.measure(&mut st, 0).unwrap(), expect);
    }
}

#[test]
fn iand_uncomputes_matched_pair() {
    let (r, mut st) = QuRegObject::new(2, 0b11, 1);
    let a = r.get(0).unwrap();
    let b = r.get(1).unwrap();
    let s = a.and(&b, &mut st).unwrap();
    assert_eq!(s.measure(&mut st, 0).unwrap(), 1);
    s.iand(&a, &b, &mut st, false).unwrap();
    assert_eq!(st.scratch(), 0);
}

#[test]
fn ior_uncomputes_matched_pair() {
    let (r, mut st) = QuRegObject::new(2, 0b10, 1);
    let a = r.get(0).unwrap();
    let b = r.get(1).unwrap();
    let s = a.or(&b, &mut st).unwrap();
    assert_eq!(s.measure(&mut st, 0).unwrap(), 1);
    s.ior(&a, &b, &mut st, false).unwrap();
    assert_eq!(st.scratch(), 0);
}

#[test]
fn iand_on_main_register_folds_without_release() {
    let (r, mut st) = QuRegObject::new(3, 0b011, 1);
    let a = r.get(0).unwrap();
    let b = r.get(1).unwrap();
    let t = r.get(2).unwrap();
    t.iand(&a, &b, &mut st, false).unwrap();
    assert_eq!(r.measure(&mut st, 0).unwrap(), 0b111);
}

#[test]
fn or_emits_standard_gate_sequence() {
    let (r, mut st) = QuRegObject::new(2, 0, 1);
    let a = r.get(0).unwrap();
    let b = r.get(1).unwrap();
    st.take_ops();
    let _s = a.or(&b, &mut st).unwrap();
    assert_eq!(
        st.take_ops(),
        vec![
            EngineOp::AddScratch,
            EngineOp::CNot { control: 1, target: 0 },
            EngineOp::CNot { control: 2, target: 0 },
            EngineOp::Toffoli { control1: 1, control2: 2, target: 0 },
        ]
    );
}

#[test]
fn cphase_keeps_measured_values() {
    let (r, mut st) = QuRegObject::new(2, 0b11, 1);
    let t = r.get(0).unwrap();
    let c = r.get(1).unwrap();
    t.cphase(&c, &mut st).unwrap();
    t.cphaseby(&c, &mut st).unwrap();
    assert_eq!(r.measure(&mut st, 0).unwrap(), 3);
}
