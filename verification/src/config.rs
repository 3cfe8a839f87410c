//! The shared circuit resource registry and the static descriptions of
//! gadgets and layers.
//!
//! The registry (`GadgetConfig`) is built exactly once per model load from
//! the model description and is read-only afterwards: it is an explicit value
//! threaded through circuit declaration and witness assignment rather than
//! process-wide state.

use vstd::prelude::*;
use vstd::arithmetic::power2::pow2;
use vstd::string::StringExecFns;
use crate::error::CircuitError;

verus! {

/// The closed set of gadget kinds the gadget library knows.
#[derive(Clone, Copy, PartialEq, Eq, Structural, Debug)]
pub enum GadgetType {
    AddPairs,
    Adder,
    BiasDivFloorRelu6,
    BiasDivRoundRelu6,
    DotProduct,
    Exp,
    Logistic,
    MulPairs,
    Packer,
    Rsqrt,
    SqrtBig,
    Square,
    SquaredDiff,
    SubPairs,
    VarDivRound,
}

/// The closed set of layer kinds a model description may name.
#[derive(Clone, Copy, PartialEq, Eq, Structural, Debug)]
pub enum LayerType {
    Add,
    AvgPool2D,
    BatchMatMul,
    Conv2D,
    FullyConnected,
    Logistic,
    MaskNegInf,
    Mean,
    Mul,
    Noop,
    Pad,
    Reshape,
    Rsqrt,
    Softmax,
    Square,
    SquaredDifference,
    Sub,
    Transpose,
}

/// The layer kind named by a layer type tag, or `None` for an unknown tag.
pub open spec fn spec_match_layer(s: Seq<char>) -> Option<LayerType> {
    if s == "AveragePool2D"@ {
        Some(LayerType::AvgPool2D)
    } else if s == "Add"@ {
        Some(LayerType::Add)
    } else if s == "BatchMatMul"@ {
        Some(LayerType::BatchMatMul)
    } else if s == "Conv2D"@ {
        Some(LayerType::Conv2D)
    } else if s == "FullyConnected"@ {
        Some(LayerType::FullyConnected)
    } else if s == "Logistic"@ {
        Some(LayerType::Logistic)
    } else if s == "MaskNegInf"@ {
        Some(LayerType::MaskNegInf)
    } else if s == "Mean"@ {
        Some(LayerType::Mean)
    } else if s == "Mul"@ {
        Some(LayerType::Mul)
    } else if s == "Noop"@ {
        Some(LayerType::Noop)
    } else if s == "Pad"@ {
        Some(LayerType::Pad)
    } else if s == "Reshape"@ {
        Some(LayerType::Reshape)
    } else if s == "Rsqrt"@ {
        Some(LayerType::Rsqrt)
    } else if s == "Softmax"@ {
        Some(LayerType::Softmax)
    } else if s == "Square"@ {
        Some(LayerType::Square)
    } else if s == "SquaredDifference"@ {
        Some(LayerType::SquaredDifference)
    } else if s == "Sub"@ {
        Some(LayerType::Sub)
    } else if s == "Transpose"@ {
        Some(LayerType::Transpose)
    } else {
        None
    }
}

/// Resolve a layer type tag from the model description; an unknown tag is a
/// fatal configuration error.
pub fn match_layer(tag: &String) -> (r: Result<LayerType, CircuitError>)
    ensures
        match r {
            Ok(lt) => spec_match_layer(tag@) == Some(lt),
            Err(e) => e == CircuitError::UnknownLayerKind && spec_match_layer(tag@) is None,
        },
{
    if *tag == String::from_str("AveragePool2D") {
        Ok(LayerType::AvgPool2D)
    } else if *tag == String::from_str("Add") {
        Ok(LayerType::Add)
    } else if *tag == String::from_str("BatchMatMul") {
        Ok(LayerType::BatchMatMul)
    } else if *tag == String::from_str("Conv2D") {
        Ok(LayerType::Conv2D)
    } else if *tag == String::from_str("FullyConnected") {
        Ok(LayerType::FullyConnected)
    } else if *tag == String::from_str("Logistic") {
        Ok(LayerType::Logistic)
    } else if *tag == String::from_str("MaskNegInf") {
        Ok(LayerType::MaskNegInf)
    } else if *tag == String::from_str("Mean") {
        Ok(LayerType::Mean)
    } else if *tag == String::from_str("Mul") {
        Ok(LayerType::Mul)
    } else if *tag == String::from_str("Noop") {
        Ok(LayerType::Noop)
    } else if *tag == String::from_str("Pad") {
        Ok(LayerType::Pad)
    } else if *tag == String::from_str("Reshape") {
        Ok(LayerType::Reshape)
    } else if *tag == String::from_str("Rsqrt") {
        Ok(LayerType::Rsqrt)
    } else if *tag == String::from_str("Softmax") {
        Ok(LayerType::Softmax)
    } else if *tag == String::from_str("Square") {
        Ok(LayerType::Square)
    } else if *tag == String::from_str("SquaredDifference") {
        Ok(LayerType::SquaredDifference)
    } else if *tag == String::from_str("Sub") {
        Ok(LayerType::Sub)
    } else if *tag == String::from_str("Transpose") {
        Ok(LayerType::Transpose)
    } else {
        Err(CircuitError::UnknownLayerKind)
    }
}

/// The gadget kinds each layer kind computes through.
pub open spec fn spec_layer_gadgets(lt: LayerType) -> Seq<GadgetType> {
    match lt {
        LayerType::Add => seq![GadgetType::AddPairs],
        LayerType::AvgPool2D => seq![GadgetType::Adder, GadgetType::VarDivRound],
        LayerType::BatchMatMul => seq![GadgetType::DotProduct, GadgetType::BiasDivRoundRelu6],
        LayerType::Conv2D => seq![GadgetType::DotProduct, GadgetType::BiasDivRoundRelu6],
        LayerType::FullyConnected => seq![
            GadgetType::DotProduct,
            GadgetType::BiasDivRoundRelu6,
            GadgetType::VarDivRound,
        ],
        LayerType::Logistic => seq![GadgetType::Logistic],
        LayerType::MaskNegInf => seq![],
        LayerType::Mean => seq![GadgetType::Adder, GadgetType::VarDivRound],
        LayerType::Mul => seq![GadgetType::MulPairs, GadgetType::VarDivRound],
        LayerType::Noop => seq![],
        LayerType::Pad => seq![],
        LayerType::Reshape => seq![],
        LayerType::Rsqrt => seq![GadgetType::Rsqrt],
        LayerType::Softmax => seq![GadgetType::Exp, GadgetType::Adder, GadgetType::VarDivRound],
        LayerType::Square => seq![GadgetType::Square, GadgetType::VarDivRound],
        LayerType::SquaredDifference => seq![GadgetType::SquaredDiff, GadgetType::VarDivRound],
        LayerType::Sub => seq![GadgetType::SubPairs],
        LayerType::Transpose => seq![],
    }
}

/// The static declaration each layer kind makes of the gadgets it needs,
/// queried at model-load time to build the registry's used-gadget set.
pub fn layer_used_gadgets(lt: LayerType) -> (r: Vec<GadgetType>)
    ensures
        r@ == spec_layer_gadgets(lt),
{
    let mut v: Vec<GadgetType> = Vec::new();
    match lt {
        LayerType::Add => {
            v.push(GadgetType::AddPairs);
        },
        LayerType::AvgPool2D => {
            v.push(GadgetType::Adder);
            v.push(GadgetType::VarDivRound);
        },
        LayerType::BatchMatMul => {
            v.push(GadgetType::DotProduct);
            v.push(GadgetType::BiasDivRoundRelu6);
        },
        LayerType::Conv2D => {
            v.push(GadgetType::DotProduct);
            v.push(GadgetType::BiasDivRoundRelu6);
        },
        LayerType::FullyConnected => {
            v.push(GadgetType::DotProduct);
            v.push(GadgetType::BiasDivRoundRelu6);
            v.push(GadgetType::VarDivRound);
        },
        LayerType::Logistic => {
            v.push(GadgetType::Logistic);
        },
        LayerType::MaskNegInf => {},
        LayerType::Mean => {
            v.push(GadgetType::Adder);
            v.push(GadgetType::VarDivRound);
        },
        LayerType::Mul => {
            v.push(GadgetType::MulPairs);
            v.push(GadgetType::VarDivRound);
        },
        LayerType::Noop => {},
        LayerType::Pad => {},
        LayerType::Reshape => {},
        LayerType::Rsqrt => {
            v.push(GadgetType::Rsqrt);
        },
        LayerType::Softmax => {
            v.push(GadgetType::Exp);
            v.push(GadgetType::Adder);
            v.push(GadgetType::VarDivRound);
        },
        LayerType::Square => {
            v.push(GadgetType::Square);
            v.push(GadgetType::VarDivRound);
        },
        LayerType::SquaredDifference => {
            v.push(GadgetType::SquaredDiff);
            v.push(GadgetType::VarDivRound);
        },
        LayerType::Sub => {
            v.push(GadgetType::SubPairs);
        },
        LayerType::Transpose => {},
    }
    proof {
        assert(v@ =~= spec_layer_gadgets(lt));
    }
    v
}

/// Copy a gadget kind list.
pub fn copy_gadget_kinds(v: &Vec<GadgetType>) -> (r: Vec<GadgetType>)
    ensures
        r@ == v@,
{
    let mut out: Vec<GadgetType> = Vec::new();
    let mut i: usize = 0;
    while i < v.len()
        invariant
            0 <= i <= v@.len(),
            out@ =~= v@.take(i as int),
        decreases v@.len() - i,
    {
        out.push(v[i]);
        i += 1;
    }
    proof {
        assert(v@.take(v@.len() as int) =~= v@);
    }
    out
}

/// One layer's static description: its kind, its operation parameters, the
/// shapes it consumes and produces, and an optional mask.
#[derive(Debug)]
pub struct LayerConfig {
    pub layer_type: LayerType,
    pub layer_params: Vec<i64>,
    pub inp_shapes: Vec<Vec<usize>>,
    pub out_shapes: Vec<Vec<usize>>,
    pub mask: Vec<i64>,
}

/// The ordered layer list of one model with, per layer, the tensor ids it
/// reads and writes, and the ids of the final public outputs.
#[derive(Debug)]
pub struct DagConfig {
    pub ops: Vec<LayerConfig>,
    pub inp_idxes: Vec<Vec<usize>>,
    pub out_idxes: Vec<Vec<usize>>,
    pub final_out_idxes: Vec<usize>,
}

impl DagConfig {
    /// Every layer has an input id list and an output id list.
    pub open spec fn wf(self) -> bool {
        &&& self.inp_idxes@.len() == self.ops@.len()
        &&& self.out_idxes@.len() == self.ops@.len()
    }
}

/// The shared circuit resource registry: sizing parameters, quantization
/// constants and the set of gadget kinds the loaded model uses.
#[derive(Debug)]
pub struct GadgetConfig {
    pub scale_factor: u64,
    pub shift_min_val: i64,
    pub div_outp_min_val: i64,
    pub min_val: i64,
    pub max_val: i64,
    pub num_rows: u64,
    pub num_cols: usize,
    pub used_gadgets: Vec<GadgetType>,
}

impl GadgetConfig {
    /// Bounds under which every gadget's arithmetic stays inside `i64`.
    pub open spec fn wf(self) -> bool {
        &&& -0x800_0000 <= self.min_val <= 0 < self.max_val <= 0x800_0000
        &&& 1 <= self.scale_factor <= 0x400_0000
        &&& self.scale_factor <= self.max_val
        &&& 1 <= self.num_cols <= 65536
    }

    pub open spec fn uses(self, g: GadgetType) -> bool {
        self.used_gadgets@.contains(g)
    }
}

impl Default for GadgetConfig {
    /// The registry before a model is loaded: every sizing field empty; the
    /// one mutation at model load replaces all of them.
    fn default() -> (r: Self)
        ensures
            r.scale_factor == 0,
            r.min_val == 0,
            r.max_val == 0,
            r.num_rows == 0,
            r.num_cols == 0,
            r.used_gadgets@ == Seq::<GadgetType>::empty(),
    {
        GadgetConfig {
            scale_factor: 0,
            shift_min_val: 0,
            div_outp_min_val: 0,
            min_val: 0,
            max_val: 0,
            num_rows: 0,
            num_cols: 0,
            used_gadgets: Vec::new(),
        }
    }
}

/// Whether the sizing fields of a model description are admissible for the
/// registry: row parameter, scale factor and column count in range.
pub open spec fn sizing_valid(global_sf: i64, k: i64, num_cols: i64) -> bool {
    &&& 5 <= k <= 28
    &&& 1 <= global_sf <= 0x400_0000
    &&& 1 <= num_cols <= 65536
    &&& global_sf <= pow2((k - 1) as nat) - 10
}

/// Build the registry from the model description's sizing fields and the
/// union of the layers' gadget declarations: the value range covers
/// `[-2^(k-1), 2^(k-1) - 10)` and the row budget is `2^k - 10` rows.
pub fn build_gadget_config(
    global_sf: i64,
    k: i64,
    num_cols: i64,
    used_gadgets: Vec<GadgetType>,
) -> (r: Result<GadgetConfig, CircuitError>)
    ensures
        r is Ok <==> sizing_valid(global_sf, k, num_cols),
        match r {
            Ok(cfg) => {
                &&& cfg.wf()
                &&& cfg.scale_factor == global_sf
                &&& cfg.min_val == -(pow2((k - 1) as nat) as int)
                &&& cfg.max_val == pow2((k - 1) as nat) - 10
                &&& cfg.num_rows == pow2(k as nat) - 10
                &&& cfg.num_cols == num_cols
                &&& cfg.shift_min_val == -(global_sf * global_sf * 1024)
                &&& cfg.div_outp_min_val == cfg.min_val
                &&& cfg.used_gadgets == used_gadgets
            },
            Err(e) => e == CircuitError::UnsupportedRowParameter
                || e == CircuitError::BadDescription,
        },
{
    if !(5 <= k && k <= 28) {
        return Err(CircuitError::UnsupportedRowParameter);
    }
    if !(1 <= global_sf && global_sf <= 0x400_0000) {
        return Err(CircuitError::BadDescription);
    }
    if !(1 <= num_cols && num_cols <= 65536) {
        return Err(CircuitError::BadDescription);
    }
    proof {
        vstd::arithmetic::power2::lemma2_to64();
        assert(pow2((k - 1) as nat) <= pow2(27)) by {
            if k < 28 {
                vstd::arithmetic::power2::lemma_pow2_strictly_increases((k - 1) as nat, 27);
            }
        };
        assert(pow2(k as nat) <= pow2(28)) by {
            if k < 28 {
                vstd::arithmetic::power2::lemma_pow2_strictly_increases(k as nat, 28);
            }
        };
        vstd::bits::lemma_u64_shl_is_mul(1u64, (k - 1) as u64);
        vstd::bits::lemma_u64_shl_is_mul(1u64, k as u64);
    }
    let half: u64 = 1u64 << ((k - 1) as u64);
    let rows: u64 = 1u64 << (k as u64);
    let max_val: i64 = (half as i64) - 10;
    if global_sf > max_val {
        return Err(CircuitError::BadDescription);
    }
    proof {
        assert(1 <= global_sf * global_sf <= 0x400_0000 * 0x400_0000) by (nonlinear_arith)
            requires
                1 <= global_sf <= 0x400_0000,
        ;
    }
    Ok(GadgetConfig {
        scale_factor: global_sf as u64,
        shift_min_val: -(global_sf * global_sf * 1024),
        div_outp_min_val: -(half as i64),
        min_val: -(half as i64),
        max_val,
        num_rows: rows - 10,
        num_cols: num_cols as usize,
        used_gadgets,
    })
}

} // verus!
