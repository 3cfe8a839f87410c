//! Field-element representation for quantized values.
//!
//! A quantized signed integer `x` is carried inside the proving field as
//! `field(x + B) - field(B)` for the fixed bias `B = 2^31`, i.e. as the
//! residue `x mod p`. Every value this pipeline produces is the encoding of
//! a signed integer of magnitude below `2^63`, so a field element is stored
//! here as a sign and a magnitude rather than as raw limbs.

use vstd::prelude::*;
use crate::error::CircuitError;

verus! {

/// The modulus of the scalar field of the proving curve.
pub open spec fn field_modulus() -> int {
    21888242871839275222246405745257275088548364400416034343698204186575808495617int
}

/// A field element known to be the encoding of a signed integer with
/// magnitude below `2^63`: `negative` selects between the residues `m`
/// and `p - m`.
#[derive(Clone, Copy, PartialEq, Eq, Structural, Debug)]
pub struct Felt {
    pub negative: bool,
    pub magnitude: u64,
}

/// The residue modulo the field modulus that encodes the signed integer `x`.
pub open spec fn field_encoding(x: int) -> int {
    if x >= 0 {
        x
    } else {
        field_modulus() + x
    }
}

impl Felt {
    /// A canonical representation: bounded magnitude, and a unique form for zero.
    pub open spec fn wf(self) -> bool {
        &&& self.magnitude < 0x8000_0000_0000_0000u64
        &&& (self.negative ==> self.magnitude > 0)
    }

    /// The signed integer this field element encodes.
    pub open spec fn signed_rep(self) -> int {
        if self.negative {
            -(self.magnitude as int)
        } else {
            self.magnitude as int
        }
    }

    /// The canonical residue in `[0, p)` of this field element.
    pub open spec fn residue(self) -> int {
        field_encoding(self.signed_rep())
    }
}

/// `field_encoding` agrees with reduction modulo the field modulus on the
/// whole range of signed representatives.
pub proof fn lemma_field_encoding_is_mod(x: int)
    requires
        -field_modulus() < x < field_modulus(),
    ensures
        field_encoding(x) == x % field_modulus(),
{
    if x >= 0 {
        vstd::arithmetic::div_mod::lemma_small_mod(x as nat, field_modulus() as nat);
    } else {
        vstd::arithmetic::div_mod::lemma_mod_add_multiples_vanish(x, field_modulus());
        vstd::arithmetic::div_mod::lemma_small_mod((field_modulus() + x) as nat, field_modulus() as nat);
    }
}

/// Two signed integers of bounded magnitude with the same field encoding
/// are equal: the bias transform loses nothing.
pub proof fn lemma_field_encoding_injective(x: int, y: int)
    requires
        -0x8000_0000_0000_0000 < x < 0x8000_0000_0000_0000,
        -0x8000_0000_0000_0000 < y < 0x8000_0000_0000_0000,
        field_encoding(x) == field_encoding(y),
    ensures
        x == y,
{
}

/// The field element that `encode` returns for `x`.
pub open spec fn encode_spec(x: i64) -> Felt {
    if x >= 0 {
        Felt { negative: false, magnitude: x as u64 }
    } else {
        Felt { negative: true, magnitude: (-(x as int)) as u64 }
    }
}

/// The result that `decode` returns for a field element under the declared
/// value range.
pub open spec fn decode_spec(f: Felt, min_val: i64, max_val: i64) -> Result<i64, CircuitError> {
    if min_val <= f.signed_rep() < max_val {
        if f.negative {
            Ok((-(f.magnitude as int)) as i64)
        } else {
            Ok(f.magnitude as i64)
        }
    } else {
        Err(CircuitError::ValueOutOfRange)
    }
}

/// Map a signed quantized integer into the field as `field(x + B) - field(B)`
/// with bias `B = 2^31`; the bias keeps the shifted value non-negative, so
/// `x` must not lie below `-B`.
pub fn encode(x: i64) -> (r: Felt)
    requires
        x >= -crate::QUANT_BIAS,
    ensures
        r == encode_spec(x),
        r.wf(),
        r.signed_rep() == x as int,
{
    if x >= 0 {
        Felt { negative: false, magnitude: x as u64 }
    } else {
        Felt { negative: true, magnitude: (-x) as u64 }
    }
}

/// Recover the signed integer a field element encodes, rejecting any element
/// whose representative lies outside the declared range `[min_val, max_val)`.
pub fn decode(f: Felt, min_val: i64, max_val: i64) -> (r: Result<i64, CircuitError>)
    requires
        f.wf(),
        -crate::QUANT_BIAS <= min_val <= 0 < max_val,
    ensures
        r == decode_spec(f, min_val, max_val),
        r matches Ok(x) ==> min_val <= x < max_val && x as int == f.signed_rep(),
        r is Err <==> !(min_val <= f.signed_rep() < max_val),
{
    if f.negative {
        if f.magnitude <= (-min_val) as u64 {
            Ok(-(f.magnitude as i64))
        } else {
            Err(CircuitError::ValueOutOfRange)
        }
    } else {
        if f.magnitude < max_val as u64 {
            Ok(f.magnitude as i64)
        } else {
            Err(CircuitError::ValueOutOfRange)
        }
    }
}

/// Quantization round-trip: every integer in the declared range `[min_val,
/// max_val)` decodes back to itself after being encoded into the field.
pub proof fn lemma_quantization_round_trip(x: i64, min_val: i64, max_val: i64)
    requires
        -crate::QUANT_BIAS <= min_val <= 0 < max_val,
        min_val <= x < max_val,
    ensures
        decode_spec(encode_spec(x), min_val, max_val) == Ok::<i64, CircuitError>(x),
{
}

} // verus!
