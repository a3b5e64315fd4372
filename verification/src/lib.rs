//! A verified quantum register runtime.
//!
//! The crate manages windowed, composable views into a single simulated
//! quantum state, a strictly LIFO pool of temporary scratch (ancilla)
//! qubits layered on the tail of the physical address space, and
//! reversible boolean operations (NOT/AND/OR) built from elementary
//! controlled gates.
//!
//! The runtime itself performs no amplitude arithmetic.  It keeps a
//! conservative classical-basis model of every physical qubit and emits
//! the elementary operations it decides on as plain data
//! ([`model::EngineOp`]), addressed by absolute physical index, for an
//! unverified driver to forward to a quantum state engine.  Outcomes that
//! only such an engine can produce (the measured value of a qubit in
//! superposition) enter the runtime as arguments and are handled for
//! every possible value.

pub mod errors;
pub mod laws;
pub mod model;
pub mod qureg;
