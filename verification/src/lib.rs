//! Stateful, model-based differential testing of two implementations of one
//! API surface.
//!
//! A byte buffer is decoded into a finite sequence of typed operations
//! ([`decode`], driven by the registration table of [`descriptor`]); the
//! engine ([`engine`]) applies each operation to a reference implementation
//! (the model) and to the implementation under test, each behind a failure
//! boundary ([`boundary`]), classifies the combined outcome ([`classify`]),
//! runs the surface's hooks around the guarded calls, and halts the whole
//! run on the first failing classification, which escalates ([`escalate`])
//! so the enclosing fuzz driver records the input as a crash.
//!
//! What the engine guarantees — deterministic decoding, no false divergence
//! on equivalent surfaces, tolerance of symmetric failures, fail-fast, hook
//! ordering — is stated and proved in [`laws`], in [`decode`], and, for the
//! shipped example surfaces ([`map_surface`], [`heap_surface`],
//! [`buf_surface`]), in [`map_equiv`] and [`heap_equiv`]. Executed
//! operations can be rendered to a replayable log ([`trace`]).

pub mod value;
pub mod descriptor;
pub mod sort;
pub mod operation;
pub mod decode;
pub mod boundary;
pub mod classify;
pub mod engine;
pub mod laws;
pub mod map_surface;
pub mod map_equiv;
pub mod heap_surface;
pub mod heap_equiv;
pub mod buf_surface;
pub mod trace;
pub mod escalate;
