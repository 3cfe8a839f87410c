//! The verifier's input preparation: decode the hex-encoded verifying key
//! and proof, parse the claimed public values into field elements,
//! reconstruct the circuit shape from the model description, and bundle the
//! hard-coded trusted-setup parameters. The pairing check itself belongs to
//! the proving system.

use vstd::prelude::*;
use vstd::string::StrSliceExecFns;
use vstd::string::StringExecFns;
use crate::circuit::{ModelCircuit, ModelConfig, ModelDescription, spec_description_valid};
use crate::config::GadgetConfig;
use crate::error::CircuitError;
use crate::felt::Felt;

verus! {

/// A decimal digit.
pub open spec fn is_dec_digit(c: char) -> bool {
    48 <= c as int <= 57
}

/// The value of a decimal digit.
pub open spec fn dec_digit_val(c: char) -> int {
    c as int - 48
}

/// The value of a digit string.
pub open spec fn dec_value(s: Seq<char>) -> int
    decreases s.len(),
{
    if s.len() == 0 {
        0
    } else {
        dec_value(s.drop_last()) * 10 + dec_digit_val(s.last())
    }
}

/// A public value string this verifier accepts: a non-empty run of at most
/// nineteen decimal digits whose value has a bounded-magnitude field
/// representative.
pub open spec fn spec_public_value_ok(s: Seq<char>) -> bool {
    &&& 0 < s.len() <= 19
    &&& (forall|i: int| 0 <= i < s.len() ==> is_dec_digit(#[trigger] s[i]))
    &&& dec_value(s) < 0x8000_0000_0000_0000
}

/// Powers of ten.
pub open spec fn pow10(e: nat) -> int
    decreases e,
{
    if e == 0 {
        1
    } else {
        10 * pow10((e - 1) as nat)
    }
}

/// A hex digit.
pub open spec fn is_hex_digit(c: char) -> bool {
    (48 <= c as int <= 57) || (97 <= c as int <= 102) || (65 <= c as int <= 70)
}

/// The value of a hex digit.
pub open spec fn hex_val(c: char) -> int {
    if 48 <= c as int <= 57 {
        c as int - 48
    } else if 97 <= c as int <= 102 {
        c as int - 87
    } else {
        c as int - 55
    }
}

/// A string that decodes as hex: even length, hex digits throughout.
pub open spec fn hex_ok(s: Seq<char>) -> bool {
    &&& s.len() % 2 == 0
    &&& forall|i: int| 0 <= i < s.len() ==> is_hex_digit(#[trigger] s[i])
}

/// Byte `i` of a decoded hex string: two digits per byte, high nibble
/// first.
pub open spec fn hex_byte(s: Seq<char>, i: int) -> int {
    16 * hex_val(s[2 * i]) + hex_val(s[2 * i + 1])
}

/// Relies on hex::decode: upper or lower case digits, two per byte; it
/// rejects an odd-length string and any character that is no hex digit.
#[verifier::external_body]
fn decode_hex(s: &String) -> (r: Result<Vec<u8>, CircuitError>)
    ensures
        match r {
            Ok(b) => hex_ok(s@) && b@.len() * 2 == s@.len() && forall|i: int|
                0 <= i < b@.len() ==> #[trigger] b@[i] as int == hex_byte(s@, i),
            Err(e) => !hex_ok(s@) && (e == CircuitError::OddHexLength || e matches CircuitError::BadHexCharacter { .. }),
        },
{
    match hex::decode(s) {
        Ok(b) => Ok(b),
        Err(hex::FromHexError::OddLength) => Err(CircuitError::OddHexLength),
        Err(hex::FromHexError::InvalidHexCharacter { index, .. }) => Err(
            CircuitError::BadHexCharacter { index },
        ),
        Err(hex::FromHexError::InvalidStringLength) => Err(CircuitError::OddHexLength),
    }
}

/// Parse one claimed public value: a decimal string for the field element
/// that encodes a quantized output.
pub fn parse_field_element(s: &String) -> (r: Result<Felt, CircuitError>)
    ensures
        r is Ok <==> spec_public_value_ok(s@),
        r matches Ok(f) ==> f.wf() && !f.negative && f.signed_rep() == dec_value(s@),
{
    proof {
        reveal_with_fuel(pow10, 21);
    }
    let n = s.as_str().unicode_len();
    if n == 0 || n > 19 {
        return Err(CircuitError::MalformedFieldElement);
    }
    let mut acc: u128 = 0;
    let mut i: usize = 0;
    while i < n
        invariant
            0 <= i <= n,
            n == s@.len(),
            n <= 19,
            forall|j: int| 0 <= j < i ==> is_dec_digit(#[trigger] s@[j]),
            acc == dec_value(s@.take(i as int)),
            acc < pow10(i as nat),
            pow10(19) == 10_000_000_000_000_000_000,
            forall|e: nat| e <= 19 ==> #[trigger] pow10(e) <= pow10(19),
        decreases n - i,
    {
        let c = s.as_str().get_char(i);
        let cv = c as u32;
        if cv < 48 || cv > 57 {
            return Err(CircuitError::MalformedFieldElement);
        }
        let d: u128 = (cv - 48) as u128;
        proof {
            assert(s@.take(i as int + 1).drop_last() =~= s@.take(i as int));
            assert(10 * acc + d < 10 * pow10(i as nat)) by (nonlinear_arith)
                requires
                    acc < pow10(i as nat),
                    d <= 9,
                    acc >= 0,
                    pow10(i as nat) >= 1,
            ;
            assert(pow10(i as nat + 1) == 10 * pow10(i as nat));
            assert(pow10(i as nat) >= 1) by {
                lemma_pow10_pos(i as nat);
            }
            assert(pow10(i as nat + 1) <= pow10(19));
        }
        acc = acc * 10 + d;
        i += 1;
    }
    proof {
        assert(s@.take(n as int) =~= s@);
    }
    if acc >= 0x8000_0000_0000_0000u128 {
        return Err(CircuitError::MalformedFieldElement);
    }
    Ok(Felt { negative: false, magnitude: acc as u64 })
}

/// Powers of ten are positive.
proof fn lemma_pow10_pos(e: nat)
    ensures
        pow10(e) >= 1,
    decreases e,
{
    if e > 0 {
        lemma_pow10_pos((e - 1) as nat);
    }
}

/// The hard-coded trusted-setup parameters for row parameter 24: the curve
/// generators, and the base-field coordinates, as decimal strings, of the
/// two extension-curve points (the trapdoor point and the generator).
pub struct KzgSetup {
    pub k: u32,
    pub n: u64,
    pub s_g2_x_c0: String,
    pub s_g2_x_c1: String,
    pub s_g2_y_c0: String,
    pub s_g2_y_c1: String,
    pub g2_x_c0: String,
    pub g2_x_c1: String,
    pub g2_y_c0: String,
    pub g2_y_c1: String,
}

/// The fixed commitment-scheme parameters: a degree bound of two to the
/// twenty-fourth, and the pairing points of the ceremony artifact.
pub fn kzg_setup() -> (r: KzgSetup)
    ensures
        r.k == 24,
        r.n == 0x100_0000,
        r.s_g2_x_c0@ == "17109015867118572030745779324212191698736396241608212876854183006212164292849"@,
        r.s_g2_x_c1@ == "10938796003451079337728171122795908661206257899267762973177153171611833735690"@,
        r.s_g2_y_c0@ == "5207198165565673371403386229903402585220628358261245511764422372679613157540"@,
        r.s_g2_y_c1@ == "14794195211544794432532285509939829643330163063517964588789563791156406265496"@,
        r.g2_x_c0@ == "10857046999023057135944570762232829481370756359578518086990519993285655852781"@,
        r.g2_x_c1@ == "11559732032986387107991004021392285783925812861821192530917403151452391805634"@,
        r.g2_y_c0@ == "8495653923123431417604973247489272438418190587263600148770280649306958101930"@,
        r.g2_y_c1@ == "4082367875863433681332203403145435568316851327593401208105741076214120093531"@,
{
    KzgSetup {
        k: 24,
        n: 0x100_0000,
        s_g2_x_c0: String::from_str(
            "17109015867118572030745779324212191698736396241608212876854183006212164292849",
        ),
        s_g2_x_c1: String::from_str(
            "10938796003451079337728171122795908661206257899267762973177153171611833735690",
        ),
        s_g2_y_c0: String::from_str(
            "5207198165565673371403386229903402585220628358261245511764422372679613157540",
        ),
        s_g2_y_c1: String::from_str(
            "14794195211544794432532285509939829643330163063517964588789563791156406265496",
        ),
        g2_x_c0: String::from_str(
            "10857046999023057135944570762232829481370756359578518086990519993285655852781",
        ),
        g2_x_c1: String::from_str(
            "11559732032986387107991004021392285783925812861821192530917403151452391805634",
        ),
        g2_y_c0: String::from_str(
            "8495653923123431417604973247489272438418190587263600148770280649306958101930",
        ),
        g2_y_c1: String::from_str(
            "4082367875863433681332203403145435568316851327593401208105741076214120093531",
        ),
    }
}

/// Everything the proving system needs for the final check: the decoded
/// verifying key and proof bytes, the parsed public values, the circuit
/// rebuilt from the model description with its declared shape, and the
/// fixed setup parameters.
pub struct VerificationJob {
    pub vk_bytes: Vec<u8>,
    pub proof_bytes: Vec<u8>,
    pub public_values: Vec<Felt>,
    pub circuit: ModelCircuit,
    pub gadget_config: GadgetConfig,
    pub shape: ModelConfig,
    pub setup: KzgSetup,
}

/// Whether every claimed public value parses.
pub open spec fn spec_publics_ok(vals: Seq<String>) -> bool {
    forall|i: int| 0 <= i < vals.len() ==> spec_public_value_ok((#[trigger] vals[i])@)
}

/// Prepare a proof verification: decode the hex verifying key and proof,
/// parse the public values, rebuild the circuit from the model description
/// and declare its shape, and attach the fixed setup, which supports only
/// row parameter 24. Every malformed input is a typed error; the pairing
/// check over the returned job is the proving system's.
pub fn verify(vk: &String, proof: &String, public_vals: &Vec<String>, desc: &ModelDescription) -> (r:
    Result<VerificationJob, CircuitError>)
    ensures
        r is Ok <==> hex_ok(vk@) && hex_ok(proof@) && spec_publics_ok(public_vals@) && desc.k == 24
            && spec_description_valid(*desc),
        match r {
            Ok(job) => {
                &&& job.vk_bytes@.len() * 2 == vk@.len()
                &&& (forall|i: int|
                    0 <= i < job.vk_bytes@.len() ==> #[trigger] job.vk_bytes@[i] as int
                        == hex_byte(vk@, i))
                &&& job.proof_bytes@.len() * 2 == proof@.len()
                &&& (forall|i: int|
                    0 <= i < job.proof_bytes@.len() ==> #[trigger] job.proof_bytes@[i] as int
                        == hex_byte(proof@, i))
                &&& job.public_values@.len() == public_vals@.len()
                &&& (forall|i: int|
                    0 <= i < public_vals@.len() ==> (#[trigger] job.public_values@[i]).wf()
                        && job.public_values@[i].signed_rep() == dec_value(public_vals@[i]@))
                &&& job.gadget_config.wf()
                &&& job.gadget_config.num_cols == desc.num_cols
                &&& job.shape.num_advice_columns == desc.num_cols
                &&& job.shape.num_public_columns == 1
                &&& job.shape.num_fixed_columns == 1
                &&& job.shape.configured_gadgets@[0] == crate::config::GadgetType::BiasDivRoundRelu6
                &&& job.setup.k == 24
                &&& job.setup.n == 0x100_0000
            },
            Err(_) => true,
        },
{
    let vk_bytes = match decode_hex(vk) {
        Ok(b) => b,
        Err(e) => {
            return Err(e);
        },
    };
    let proof_bytes = match decode_hex(proof) {
        Ok(b) => b,
        Err(e) => {
            return Err(e);
        },
    };
    let mut public_values: Vec<Felt> = Vec::new();
    let mut i: usize = 0;
    while i < public_vals.len()
        invariant
            0 <= i <= public_vals@.len(),
            public_values@.len() == i,
            forall|j: int| 0 <= j < i ==> spec_public_value_ok((#[trigger] public_vals@[j])@),
            forall|j: int|
                0 <= j < i ==> (#[trigger] public_values@[j]).wf()
                    && public_values@[j].signed_rep() == dec_value(public_vals@[j]@),
        decreases public_vals@.len() - i,
    {
        match parse_field_element(&public_vals[i]) {
            Ok(f) => {
                public_values.push(f);
            },
            Err(e) => {
                return Err(e);
            },
        }
        i += 1;
    }
    if desc.k != 24 {
        return Err(CircuitError::UnsupportedRowParameter);
    }
    let (circuit, gadget_config) = match ModelCircuit::generate_from_model(desc) {
        Ok(p) => p,
        Err(e) => {
            return Err(e);
        },
    };
    let shape = match ModelCircuit::configure(&gadget_config) {
        Ok(m) => m,
        Err(e) => {
            proof {
                assert(false);
            }
            return Err(e);
        },
    };
    Ok(
        VerificationJob {
            vk_bytes,
            proof_bytes,
            public_values,
            circuit,
            gadget_config,
            shape,
            setup: kzg_setup(),
        },
    )
}

} // verus!
