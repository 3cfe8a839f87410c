//! A verified skeleton of a pipeline that compiles a quantized
//! neural-network computation graph into an arithmetic circuit and prepares
//! proof verification against that circuit.
//!
//! The crate covers the quantization codec, the shared circuit resource
//! registry, the gadget library contracts, the layer and DAG executor, the
//! two-phase model circuit (declare, then assign), and the verifier's input
//! preparation. The proving system's own cryptography sits outside it.

pub mod circuit;
pub mod config;
pub mod error;
pub mod felt;
pub mod gadgets;
pub mod dag;
pub mod layers;
pub mod tensor;
pub mod verification;

use vstd::prelude::*;

verus! {

/// Bias added before mapping a signed value into the field, chosen so that
/// it covers the magnitude of every representable quantized value.
pub const QUANT_BIAS: i64 = 0x8000_0000;

} // verus!
