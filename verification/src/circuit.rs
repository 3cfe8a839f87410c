//! The model circuit: the top-level aggregate binding a DAG configuration
//! and a tensor store, with the two-phase contract of the proving system —
//! declare the constraint structure first, then assign witness values.

use vstd::prelude::*;
use vstd::arithmetic::power2::pow2;
use crate::config::{
    build_gadget_config, layer_used_gadgets, match_layer, sizing_valid, spec_layer_gadgets,
    spec_match_layer, DagConfig, GadgetConfig, GadgetType, LayerConfig, LayerType,
};
use crate::dag::{dag_forward, spec_dag_eval, store_view, store_wf, MAX_TENSOR_ID};
use crate::error::CircuitError;
use crate::felt::{encode, field_encoding, Felt};
use crate::gadgets::{load_lookup_table, LoadedTables, LookupTable};
use crate::layers::views_of;
use crate::tensor::{copy_dims, shape_num_elements, shape_size, Tensor};

verus! {

/// One tensor of the model description: its id, its shape, and its flat
/// data in row-major order.
pub struct TensorDescription {
    pub idx: i64,
    pub shape: Vec<i64>,
    pub data: Vec<i64>,
}

/// One layer of the model description, with its string type tag.
pub struct LayerDescription {
    pub layer_type: String,
    pub params: Vec<i64>,
    pub inp_idxes: Vec<i64>,
    pub out_idxes: Vec<i64>,
    pub inp_shapes: Vec<Vec<i64>>,
    pub out_shapes: Vec<Vec<i64>>,
    pub mask: Vec<i64>,
}

/// The deserialized model description: scale factor, row parameter, column
/// count, tensors, layers, and the ids of the final public outputs.
pub struct ModelDescription {
    pub global_sf: i64,
    pub k: i64,
    pub num_cols: i64,
    pub tensors: Vec<TensorDescription>,
    pub layers: Vec<LayerDescription>,
    pub out_idxes: Vec<i64>,
}

/// The top-level circuit: the DAG configuration, the input tensor store,
/// and the union of the layers' gadget declarations.
pub struct ModelCircuit {
    pub dag_config: DagConfig,
    pub tensors: Vec<Option<Tensor>>,
    pub used_gadgets: Vec<GadgetType>,
}

/// The declared circuit shape: the column counts and the gadgets that were
/// configured, the fixed bias-divide-round-relu6 gadget first.
pub struct ModelConfig {
    pub num_advice_columns: usize,
    pub num_public_columns: usize,
    pub num_fixed_columns: usize,
    pub configured_gadgets: Vec<GadgetType>,
}

/// A tensor whose elements have been placed into circuit cells: the shape,
/// and for every element the index of its cell in the advice arena.
pub struct AssignedTensor {
    pub shape: Vec<usize>,
    pub cell_ids: Vec<usize>,
}

/// The supplied value tables of the nonlinear gadget kernels, one output
/// value per admissible input; their contents are computed outside this
/// crate.
pub struct KernelTables {
    pub rsqrt: Vec<i64>,
    pub exp: Vec<i64>,
    pub logistic: Vec<i64>,
}

/// Everything witness assignment produces: the advice cell arena, the
/// per-tensor cell placements, the fixed constant column, the final tensor
/// store, the output tensors and the public values.
pub struct SynthesisOutput {
    pub advice_cells: Vec<Felt>,
    pub assigned: Vec<Option<AssignedTensor>>,
    pub fixed_column: Vec<Felt>,
    pub store: Vec<Option<Tensor>>,
    pub outputs: Vec<Tensor>,
    pub public_values: Vec<Felt>,
}

/// Dimensions valid for a shape: non-negative and bounded.
pub open spec fn spec_dims_ok(v: Seq<i64>) -> bool {
    forall|j: int| 0 <= j < v.len() ==> 0 <= #[trigger] v[j] <= 0xFFFF_FFFF
}

/// A shape vector converted from the description's integers.
pub open spec fn spec_dims(v: Seq<i64>) -> Seq<usize> {
    v.map_values(|d: i64| d as usize)
}

/// Tensor ids valid for the store: non-negative and below the id bound.
pub open spec fn spec_idxes_ok(v: Seq<i64>) -> bool {
    forall|j: int| 0 <= j < v.len() ==> 0 <= #[trigger] v[j] < MAX_TENSOR_ID
}

/// A tensor id vector converted from the description's integers.
pub open spec fn spec_idxes(v: Seq<i64>) -> Seq<usize> {
    v.map_values(|d: i64| d as usize)
}

/// A described tensor is admissible: id in range, dimensions in range, the
/// element count matching the shape, and every value encodable.
pub open spec fn spec_tensor_desc_valid(t: TensorDescription) -> bool {
    &&& 0 <= t.idx < MAX_TENSOR_ID
    &&& spec_dims_ok(t.shape@)
    &&& shape_size(spec_dims(t.shape@)) == t.data@.len()
    &&& forall|j: int| 0 <= j < t.data@.len() ==> #[trigger] t.data@[j] >= -crate::QUANT_BIAS
}

/// A described layer is admissible: a known type tag, ids and dimensions in
/// range.
pub open spec fn spec_layer_desc_valid(l: LayerDescription) -> bool {
    &&& spec_match_layer(l.layer_type@) is Some
    &&& spec_idxes_ok(l.inp_idxes@)
    &&& spec_idxes_ok(l.out_idxes@)
    &&& forall|j: int| 0 <= j < l.inp_shapes@.len() ==> spec_dims_ok(#[trigger] l.inp_shapes@[j]@)
    &&& forall|j: int| 0 <= j < l.out_shapes@.len() ==> spec_dims_ok(#[trigger] l.out_shapes@[j]@)
}

/// Tensor ids are unique within one model.
pub open spec fn spec_ids_unique(ts: Seq<TensorDescription>) -> bool {
    forall|a: int, b: int|
        0 <= a < b < ts.len() ==> (#[trigger] ts[a]).idx != (#[trigger] ts[b]).idx
}

/// The whole description is admissible.
pub open spec fn spec_description_valid(d: ModelDescription) -> bool {
    &&& sizing_valid(d.global_sf, d.k, d.num_cols)
    &&& forall|i: int| 0 <= i < d.tensors@.len() ==> spec_tensor_desc_valid(#[trigger] d.tensors@[i])
    &&& spec_ids_unique(d.tensors@)
    &&& forall|i: int| 0 <= i < d.layers@.len() ==> spec_layer_desc_valid(#[trigger] d.layers@[i])
    &&& spec_idxes_ok(d.out_idxes@)
}

/// Convert the description's shape integers, rejecting one out of range.
fn convert_dims(v: &Vec<i64>) -> (r: Result<Vec<usize>, CircuitError>)
    ensures
        match r {
            Ok(d) => spec_dims_ok(v@) && d@ == spec_dims(v@),
            Err(e) => e == CircuitError::BadDescription && !spec_dims_ok(v@),
        },
{
    let mut d: Vec<usize> = Vec::new();
    let mut i: usize = 0;
    while i < v.len()
        invariant
            0 <= i <= v@.len(),
            d@.len() == i,
            forall|j: int| 0 <= j < i ==> 0 <= #[trigger] v@[j] <= 0xFFFF_FFFF,
            forall|j: int| 0 <= j < i ==> #[trigger] d@[j] == v@[j] as usize,
        decreases v@.len() - i,
    {
        let x = v[i];
        if x < 0 || x > 0xFFFF_FFFF {
            return Err(CircuitError::BadDescription);
        }
        d.push(x as usize);
        i += 1;
    }
    proof {
        assert(d@ =~= spec_dims(v@));
    }
    Ok(d)
}

/// Convert the description's tensor ids, rejecting one out of range.
fn convert_idxes(v: &Vec<i64>) -> (r: Result<Vec<usize>, CircuitError>)
    ensures
        match r {
            Ok(d) => spec_idxes_ok(v@) && d@ == spec_idxes(v@),
            Err(e) => e == CircuitError::BadDescription && !spec_idxes_ok(v@),
        },
{
    let mut d: Vec<usize> = Vec::new();
    let mut i: usize = 0;
    while i < v.len()
        invariant
            0 <= i <= v@.len(),
            d@.len() == i,
            forall|j: int| 0 <= j < i ==> 0 <= #[trigger] v@[j] < MAX_TENSOR_ID,
            forall|j: int| 0 <= j < i ==> #[trigger] d@[j] == v@[j] as usize,
        decreases v@.len() - i,
    {
        let x = v[i];
        if x < 0 || x >= MAX_TENSOR_ID as i64 {
            return Err(CircuitError::BadDescription);
        }
        d.push(x as usize);
        i += 1;
    }
    proof {
        assert(d@ =~= spec_idxes(v@));
    }
    Ok(d)
}

/// Whether a gadget list holds a kind.
fn gadget_list_contains(v: &Vec<GadgetType>, g: GadgetType) -> (r: bool)
    ensures
        r == v@.contains(g),
{
    let mut i: usize = 0;
    while i < v.len()
        invariant
            0 <= i <= v@.len(),
            forall|j: int| 0 <= j < i ==> v@[j] != g,
        decreases v@.len() - i,
    {
        if v[i] == g {
            return true;
        }
        i += 1;
    }
    false
}

/// Membership in a sequence extended by one element.
proof fn lemma_push_contains(s: Seq<GadgetType>, x: GadgetType, y: GadgetType)
    ensures
        s.push(x).contains(y) <==> s.contains(y) || y == x,
{
    if s.contains(y) {
        let w = choose|w: int| 0 <= w < s.len() && s[w] == y;
        assert(s.push(x)[w] == y);
    }
    assert(s.push(x)[s.len() as int] == x);
    if s.push(x).contains(y) {
        let w = choose|w: int| 0 <= w < s.push(x).len() && s.push(x)[w] == y;
        if w < s.len() {
            assert(s[w] == y);
        }
    }
}

/// Membership in a prefix extended by one element.
proof fn lemma_take_succ_contains(s: Seq<GadgetType>, i: int, y: GadgetType)
    requires
        0 <= i < s.len(),
    ensures
        s.take(i + 1).contains(y) <==> s.take(i).contains(y) || y == s[i],
{
    assert(s.take(i + 1).drop_last() =~= s.take(i));
    lemma_push_contains(s.take(i), s[i], y);
    assert(s.take(i + 1) =~= s.take(i).push(s[i]));
}

/// Add a layer's gadget declarations to the registry's used-gadget set,
/// deduplicating: afterwards the set covers everything it covered before
/// and everything the layer declared.
fn add_gadgets(used: &mut Vec<GadgetType>, more: &Vec<GadgetType>)
    ensures
        forall|g: GadgetType| old(used)@.contains(g) ==> final(used)@.contains(g),
        forall|g: GadgetType| more@.contains(g) ==> final(used)@.contains(g),
        forall|g: GadgetType|
            final(used)@.contains(g) ==> old(used)@.contains(g) || more@.contains(g),
{
    let mut i: usize = 0;
    while i < more.len()
        invariant
            0 <= i <= more@.len(),
            forall|g: GadgetType| old(used)@.contains(g) ==> used@.contains(g),
            forall|g: GadgetType| more@.take(i as int).contains(g) ==> used@.contains(g),
            forall|g: GadgetType|
                used@.contains(g) ==> old(used)@.contains(g) || more@.take(i as int).contains(g),
        decreases more@.len() - i,
    {
        let g = more[i];
        let ghost prev = used@;
        let present = gadget_list_contains(used, g);
        if !present {
            used.push(g);
        }
        proof {
            assert forall|h: GadgetType| prev.contains(h) implies used@.contains(h) by {
                if !present {
                    assert(used@ =~= prev.push(g));
                    lemma_push_contains(prev, g, h);
                }
            }
            if present {
                assert(used@.contains(g));
            } else {
                assert(used@ =~= prev.push(g));
                assert(used@[prev.len() as int] == g);
                assert(used@.contains(g));
            }
            assert forall|h: GadgetType| more@.take(i as int + 1).contains(h) implies used@.contains(
                h,
            ) by {
                lemma_take_succ_contains(more@, i as int, h);
                if h == more@[i as int] {
                    assert(h == g);
                    assert(used@.contains(g));
                } else {
                    assert(more@.take(i as int).contains(h));
                    assert(prev.contains(h));
                }
            }
            assert forall|h: GadgetType|
                used@.contains(h) implies old(used)@.contains(h) || more@.take(
                i as int + 1,
            ).contains(h) by {
                if !present {
                    assert(used@ =~= prev.push(g));
                    lemma_push_contains(prev, g, h);
                }
                assert(prev.contains(h) || h == g);
                lemma_take_succ_contains(more@, i as int, h);
                if h == g {
                    assert(more@.take(i as int + 1).contains(h));
                } else {
                    assert(prev.contains(h));
                }
            }
        }
        i += 1;
    }
    proof {
        assert(more@.take(more@.len() as int) =~= more@);
    }
}

/// No layer kind declares a gadget without a configuration.
proof fn lemma_layer_gadgets_supported(lt: LayerType)
    ensures
        !spec_layer_gadgets(lt).contains(GadgetType::BiasDivFloorRelu6),
        !spec_layer_gadgets(lt).contains(GadgetType::Packer),
{
    if spec_layer_gadgets(lt).contains(GadgetType::BiasDivFloorRelu6) {
        let w = choose|w: int|
            0 <= w < spec_layer_gadgets(lt).len() && spec_layer_gadgets(lt)[w]
                == GadgetType::BiasDivFloorRelu6;
        assert(false);
    }
    if spec_layer_gadgets(lt).contains(GadgetType::Packer) {
        let w = choose|w: int|
            0 <= w < spec_layer_gadgets(lt).len() && spec_layer_gadgets(lt)[w]
                == GadgetType::Packer;
        assert(false);
    }
}

/// A built layer configuration mirrors its description entry: the resolved
/// kind, the operation parameters, the mask, and the converted shapes.
pub open spec fn spec_layer_config_matches(op: LayerConfig, l: LayerDescription) -> bool {
    &&& spec_match_layer(l.layer_type@) == Some(op.layer_type)
    &&& op.layer_params@ == l.params@
    &&& op.mask@ == l.mask@
    &&& op.inp_shapes@.len() == l.inp_shapes@.len()
    &&& (forall|j: int|
        0 <= j < l.inp_shapes@.len() ==> (#[trigger] op.inp_shapes@[j])@ == spec_dims(
            l.inp_shapes@[j]@,
        ))
    &&& op.out_shapes@.len() == l.out_shapes@.len()
    &&& (forall|j: int|
        0 <= j < l.out_shapes@.len() ==> (#[trigger] op.out_shapes@[j])@ == spec_dims(
            l.out_shapes@[j]@,
        ))
}

/// Build one tensor of the store from its description.
fn build_tensor(t: &TensorDescription) -> (r: Result<(usize, Tensor), CircuitError>)
    ensures
        match r {
            Ok(pair) => {
                &&& spec_tensor_desc_valid(*t)
                &&& pair.0 == t.idx
                &&& pair.1.wf()
                &&& pair.1.shape@ == spec_dims(t.shape@)
                &&& pair.1@.vals == t.data@.map_values(|x: i64| x as int)
            },
            Err(_) => !spec_tensor_desc_valid(*t),
        },
{
    if t.idx < 0 || t.idx >= MAX_TENSOR_ID as i64 {
        return Err(CircuitError::BadDescription);
    }
    let shape = match convert_dims(&t.shape) {
        Ok(s) => s,
        Err(e) => {
            return Err(e);
        },
    };
    let data_len = t.data.len();
    let n = match shape_num_elements(&shape) {
        Some(n) => n,
        None => {
            proof {
                assert(data_len <= usize::MAX);
            }
            return Err(CircuitError::SizeMismatch);
        },
    };
    if n != data_len as u64 {
        return Err(CircuitError::SizeMismatch);
    }
    let mut data: Vec<Felt> = Vec::new();
    let mut i: usize = 0;
    while i < t.data.len()
        invariant
            0 <= i <= t.data@.len(),
            data@.len() == i,
            forall|j: int| 0 <= j < i ==> #[trigger] t.data@[j] >= -crate::QUANT_BIAS,
            forall|j: int|
                0 <= j < i ==> (#[trigger] data@[j]).wf() && data@[j].signed_rep() == t.data@[j]
                    as int,
        decreases t.data@.len() - i,
    {
        let x = t.data[i];
        if x < -crate::QUANT_BIAS {
            return Err(CircuitError::ValueOutOfRange);
        }
        data.push(encode(x));
        i += 1;
    }
    let tensor = Tensor { shape, data };
    proof {
        assert(tensor@.vals =~= t.data@.map_values(|x: i64| x as int));
    }
    Ok(((t.idx) as usize, tensor))
}

impl ModelCircuit {
    /// Build the circuit and the registry from a deserialized model
    /// description: resolve each layer's type tag, union the layers' gadget
    /// declarations, encode every tensor into the store, and size the
    /// registry from the scale factor, row parameter and column count.
    pub fn generate_from_model(desc: &ModelDescription) -> (r: Result<
        (ModelCircuit, GadgetConfig),
        CircuitError,
    >)
        ensures
            r is Ok <==> spec_description_valid(*desc),
            match r {
                Ok(pair) => {
                    &&& pair.1.wf()
                    &&& pair.1.scale_factor == desc.global_sf
                    &&& pair.1.min_val == -(pow2((desc.k - 1) as nat) as int)
                    &&& pair.1.max_val == pow2((desc.k - 1) as nat) - 10
                    &&& pair.1.num_rows == pow2(desc.k as nat) - 10
                    &&& pair.1.num_cols == desc.num_cols
                    &&& pair.1.shift_min_val == -(desc.global_sf * desc.global_sf * 1024)
                    &&& pair.1.used_gadgets@ == pair.0.used_gadgets@
                    &&& !pair.0.used_gadgets@.contains(GadgetType::BiasDivFloorRelu6)
                    &&& !pair.0.used_gadgets@.contains(GadgetType::Packer)
                    &&& (forall|i: int, g: GadgetType|
                        0 <= i < desc.layers@.len() && (match spec_match_layer(
                            #[trigger] desc.layers@[i].layer_type@,
                        ) {
                            Some(lt) => spec_layer_gadgets(lt).contains(g),
                            None => false,
                        }) ==> #[trigger] pair.0.used_gadgets@.contains(g))
                    &&& pair.0.dag_config.wf()
                    &&& pair.0.dag_config.ops@.len() == desc.layers@.len()
                    &&& (forall|i: int|
                        0 <= i < desc.layers@.len() ==> spec_match_layer(
                            #[trigger] desc.layers@[i].layer_type@,
                        ) == Some(pair.0.dag_config.ops@[i].layer_type))
                    &&& (forall|i: int|
                        0 <= i < desc.layers@.len() ==> #[trigger] spec_layer_config_matches(
                            pair.0.dag_config.ops@[i],
                            desc.layers@[i],
                        ))
                    &&& (forall|i: int|
                        0 <= i < desc.layers@.len() ==> (#[trigger] pair.0.dag_config.inp_idxes@[i])@
                            == spec_idxes(desc.layers@[i].inp_idxes@))
                    &&& (forall|i: int|
                        0 <= i < desc.layers@.len() ==> (#[trigger] pair.0.dag_config.out_idxes@[i])@
                            == spec_idxes(desc.layers@[i].out_idxes@))
                    &&& pair.0.dag_config.final_out_idxes@ == spec_idxes(desc.out_idxes@)
                    &&& store_wf(pair.0.tensors@)
                    &&& pair.0.tensors@.len() <= MAX_TENSOR_ID
                    &&& (forall|i: int|
                        0 <= i < desc.tensors@.len() ==> {
                            let td = #[trigger] desc.tensors@[i];
                            &&& 0 <= td.idx < pair.0.tensors@.len()
                            &&& pair.0.tensors@[td.idx as int] matches Some(t)
                            &&& t.shape@ == spec_dims(td.shape@)
                            &&& t@.vals == td.data@.map_values(|x: i64| x as int)
                        })
                },
                Err(_) => true,
            },
    {
        let cfg_probe = build_gadget_config(desc.global_sf, desc.k, desc.num_cols, Vec::new());
        if let Err(e) = cfg_probe {
            return Err(e);
        }
        let mut store: Vec<Option<Tensor>> = Vec::new();
        let mut ti: usize = 0;
        while ti < desc.tensors.len()
            invariant
                0 <= ti <= desc.tensors@.len(),
                store_wf(store@),
                store@.len() <= MAX_TENSOR_ID,
                spec_ids_unique(desc.tensors@.take(ti as int)),
                forall|i: int|
                    0 <= i < ti ==> spec_tensor_desc_valid(#[trigger] desc.tensors@[i]),
                forall|i: int|
                    0 <= i < ti ==> {
                        let td = #[trigger] desc.tensors@[i];
                        &&& 0 <= td.idx < store@.len()
                        &&& store@[td.idx as int] matches Some(t)
                        &&& t.shape@ == spec_dims(td.shape@)
                        &&& t@.vals == td.data@.map_values(|x: i64| x as int)
                    },
                forall|k: int|
                    0 <= k < store@.len() ==> (#[trigger] store@[k] is Some) ==> exists|i: int|
                        0 <= i < ti && (#[trigger] desc.tensors@[i]).idx == k,
            decreases desc.tensors@.len() - ti,
        {
            let (id, tensor) = match build_tensor(&desc.tensors[ti]) {
                Ok(p) => p,
                Err(e) => {
                    return Err(e);
                },
            };
            if id < store.len() {
                match &store[id] {
                    Some(_) => {
                        proof {
                            let w = choose|i: int|
                                0 <= i < ti && (#[trigger] desc.tensors@[i]).idx == id;
                            assert(desc.tensors@.take(desc.tensors@.len() as int)
                                =~= desc.tensors@);
                            assert(desc.tensors@[w].idx == desc.tensors@[ti as int].idx);
                            assert(!spec_ids_unique(desc.tensors@));
                        }
                        return Err(CircuitError::DuplicateTensorId);
                    },
                    None => {},
                }
            }
            let ghost prev = store@;
            proof {
                assert(forall|i: int|
                    0 <= i < ti ==> (#[trigger] desc.tensors@[i]).idx != id) by {
                    assert(forall|i: int|
                        0 <= i < ti ==> ((#[trigger] desc.tensors@[i]).idx == id
                            ==> prev[id as int] is Some));
                }
            }
            crate::dag::store_put(&mut store, id, tensor);
            proof {
                assert(forall|i: int|
                    0 <= i < ti + 1 ==> {
                        let td = #[trigger] desc.tensors@[i];
                        &&& 0 <= td.idx < store@.len()
                        &&& store@[td.idx as int] matches Some(t)
                        &&& t.shape@ == spec_dims(td.shape@)
                        &&& t@.vals == td.data@.map_values(|x: i64| x as int)
                    });
                assert(forall|k: int|
                    0 <= k < store@.len() ==> (#[trigger] store@[k] is Some) ==> exists|i: int|
                        0 <= i < ti + 1 && (#[trigger] desc.tensors@[i]).idx == k) by {
                    assert(forall|k: int|
                        0 <= k < store@.len() && k != id ==> (#[trigger] store@[k] is Some)
                            ==> 0 <= k < prev.len() && prev[k] is Some);
                    assert(store@[id as int] is Some && desc.tensors@[ti as int].idx == id);
                }
                assert(spec_ids_unique(desc.tensors@.take(ti as int + 1))) by {
                    assert(forall|a: int|
                        0 <= a < ti ==> (#[trigger] desc.tensors@.take(ti as int + 1)[a]).idx
                            != desc.tensors@.take(ti as int + 1)[ti as int].idx);
                }
            }
            ti += 1;
        }
        proof {
            assert(desc.tensors@.take(desc.tensors@.len() as int) =~= desc.tensors@);
        }
        let mut used: Vec<GadgetType> = Vec::new();
        let mut ops: Vec<LayerConfig> = Vec::new();
        let mut inp_idxes: Vec<Vec<usize>> = Vec::new();
        let mut out_idxes: Vec<Vec<usize>> = Vec::new();
        let mut li: usize = 0;
        while li < desc.layers.len()
            invariant
                0 <= li <= desc.layers@.len(),
                ops@.len() == li,
                inp_idxes@.len() == li,
                out_idxes@.len() == li,
                forall|i: int| 0 <= i < li ==> spec_layer_desc_valid(#[trigger] desc.layers@[i]),
                forall|i: int|
                    0 <= i < li ==> spec_match_layer(#[trigger] desc.layers@[i].layer_type@)
                        == Some(ops@[i].layer_type),
                forall|i: int|
                    0 <= i < li ==> #[trigger] spec_layer_config_matches(
                        ops@[i],
                        desc.layers@[i],
                    ),
                forall|i: int|
                    0 <= i < li ==> (#[trigger] inp_idxes@[i])@ == spec_idxes(
                        desc.layers@[i].inp_idxes@,
                    ),
                forall|i: int|
                    0 <= i < li ==> (#[trigger] out_idxes@[i])@ == spec_idxes(
                        desc.layers@[i].out_idxes@,
                    ),
                forall|i: int, g: GadgetType|
                    0 <= i < li && (match spec_match_layer(#[trigger] desc.layers@[i].layer_type@) {
                        Some(lt) => spec_layer_gadgets(lt).contains(g),
                        None => false,
                    }) ==> #[trigger] used@.contains(g),
                !used@.contains(GadgetType::BiasDivFloorRelu6),
                !used@.contains(GadgetType::Packer),
            decreases desc.layers@.len() - li,
        {
            let ghost inp_idxes0 = inp_idxes@;
            let ghost out_idxes0 = out_idxes@;
            let ghost ops0 = ops@;
            let l = &desc.layers[li];
            let lt = match match_layer(&l.layer_type) {
                Ok(lt) => lt,
                Err(e) => {
                    return Err(e);
                },
            };
            let gadgets = layer_used_gadgets(lt);
            proof {
                lemma_layer_gadgets_supported(lt);
            }
            add_gadgets(&mut used, &gadgets);
            let inp = match convert_idxes(&l.inp_idxes) {
                Ok(v) => v,
                Err(e) => {
                    return Err(e);
                },
            };
            let out = match convert_idxes(&l.out_idxes) {
                Ok(v) => v,
                Err(e) => {
                    return Err(e);
                },
            };
            let mut inp_shapes: Vec<Vec<usize>> = Vec::new();
            let mut si: usize = 0;
            while si < l.inp_shapes.len()
                invariant
                    0 <= li < desc.layers@.len(),
                    *l == desc.layers@[li as int],
                    0 <= si <= l.inp_shapes@.len(),
                    inp_shapes@.len() == si,
                    forall|j: int| 0 <= j < si ==> spec_dims_ok(#[trigger] l.inp_shapes@[j]@),
                    forall|j: int|
                        0 <= j < si ==> (#[trigger] inp_shapes@[j])@ == spec_dims(
                            l.inp_shapes@[j]@,
                        ),
                decreases l.inp_shapes@.len() - si,
            {
                match convert_dims(&l.inp_shapes[si]) {
                    Ok(d) => {
                        inp_shapes.push(d);
                    },
                    Err(e) => {
                        proof {
                            assert(!spec_dims_ok(
                                desc.layers@[li as int].inp_shapes@[si as int]@,
                            ));
                            assert(!spec_layer_desc_valid(desc.layers@[li as int]));
                        }
                        return Err(e);
                    },
                }
                si += 1;
            }
            let mut out_shapes: Vec<Vec<usize>> = Vec::new();
            let mut so: usize = 0;
            while so < l.out_shapes.len()
                invariant
                    0 <= li < desc.layers@.len(),
                    *l == desc.layers@[li as int],
                    0 <= so <= l.out_shapes@.len(),
                    out_shapes@.len() == so,
                    forall|j: int| 0 <= j < so ==> spec_dims_ok(#[trigger] l.out_shapes@[j]@),
                    forall|j: int|
                        0 <= j < so ==> (#[trigger] out_shapes@[j])@ == spec_dims(
                            l.out_shapes@[j]@,
                        ),
                decreases l.out_shapes@.len() - so,
            {
                match convert_dims(&l.out_shapes[so]) {
                    Ok(d) => {
                        out_shapes.push(d);
                    },
                    Err(e) => {
                        proof {
                            assert(!spec_dims_ok(
                                desc.layers@[li as int].out_shapes@[so as int]@,
                            ));
                            assert(!spec_layer_desc_valid(desc.layers@[li as int]));
                        }
                        return Err(e);
                    },
                }
                so += 1;
            }
            let params = crate::tensor::copy_i64s(&l.params);
            let mask = crate::tensor::copy_i64s(&l.mask);
            proof {
                assert(*l == desc.layers@[li as int]);
                assert(l.inp_idxes@ == desc.layers@[li as int].inp_idxes@);
                assert(inp@ == spec_idxes(l.inp_idxes@));
                assert(inp@ == spec_idxes(desc.layers@[li as int].inp_idxes@));
                assert(out@ == spec_idxes(desc.layers@[li as int].out_idxes@));
            }
            ops.push(
                LayerConfig { layer_type: lt, layer_params: params, inp_shapes, out_shapes, mask },
            );
            inp_idxes.push(inp);
            out_idxes.push(out);
            proof {
                assert(inp_idxes@[li as int]@ == spec_idxes(desc.layers@[li as int].inp_idxes@));
                assert(out_idxes@[li as int]@ == spec_idxes(desc.layers@[li as int].out_idxes@));
                assert forall|i: int|
                    0 <= i < li implies (#[trigger] inp_idxes@[i])@ == spec_idxes(
                    desc.layers@[i].inp_idxes@,
                ) by {
                    assert(inp_idxes@[i] == inp_idxes0[i]);
                }
                assert forall|i: int|
                    0 <= i < li implies (#[trigger] out_idxes@[i])@ == spec_idxes(
                    desc.layers@[i].out_idxes@,
                ) by {
                    assert(out_idxes@[i] == out_idxes0[i]);
                }
                assert(ops@[li as int].layer_type == lt);
                assert(spec_match_layer(desc.layers@[li as int].layer_type@) == Some(lt));
                assert(spec_layer_config_matches(ops@[li as int], desc.layers@[li as int]));
                assert forall|i: int|
                    0 <= i < li implies #[trigger] spec_layer_config_matches(
                    ops@[i],
                    desc.layers@[i],
                ) by {
                    assert(ops@[i] == ops0[i]);
                    assert(spec_layer_config_matches(ops0[i], desc.layers@[i]));
                }
                assert forall|i: int|
                    0 <= i < li implies spec_match_layer(#[trigger] desc.layers@[i].layer_type@)
                    == Some(ops@[i].layer_type) by {
                    assert(ops@[i] == ops0[i]);
                }
            }
            li += 1;
        }
        let final_out_idxes = match convert_idxes(&desc.out_idxes) {
            Ok(v) => v,
            Err(e) => {
                return Err(e);
            },
        };
        let cfg = match build_gadget_config(desc.global_sf, desc.k, desc.num_cols, used) {
            Ok(c) => c,
            Err(e) => {
                return Err(e);
            },
        };
        let used_copy = crate::config::copy_gadget_kinds(&cfg.used_gadgets);
        let dag_config = DagConfig { ops, inp_idxes, out_idxes, final_out_idxes };
        Ok((ModelCircuit { dag_config, tensors: store, used_gadgets: used_copy }, cfg))
    }
}


/// The row a cell index occupies: cells fill columns left to right, then
/// wrap to the next row.
pub open spec fn cell_row(c: int, num_cols: int) -> int {
    c / num_cols
}

/// The column a cell index occupies.
pub open spec fn cell_col(c: int, num_cols: int) -> int {
    c % num_cols
}

/// The advice-region position of a cell index: cells fill columns left to
/// right, then wrap to the next row.
pub fn cell_position(cell: usize, num_cols: usize) -> (r: (usize, usize))
    requires
        num_cols >= 1,
    ensures
        r.0 == cell_row(cell as int, num_cols as int),
        r.1 == cell_col(cell as int, num_cols as int),
        r.1 < num_cols,
{
    (cell / num_cols, cell % num_cols)
}

/// The number of advice cells the tensors below `id` occupy.
pub open spec fn spec_cells_before(s: Seq<Option<Tensor>>, id: int) -> int
    decreases id,
{
    if id <= 0 {
        0
    } else {
        spec_cells_before(s, id - 1) + match s[id - 1] {
            Some(t) => t.data@.len() as int,
            None => 0,
        }
    }
}

/// One tensor's placement is correct: the cell index of element `j` of the
/// tensor at `id` is the number of cells of all earlier tensors plus `j`,
/// and the arena holds its value there.
pub open spec fn spec_assigned_entry_ok(
    s: Seq<Option<Tensor>>,
    arena: Seq<Felt>,
    assigned: Seq<Option<AssignedTensor>>,
    id: int,
) -> bool {
    match s[id] {
        Some(t) => {
            &&& assigned[id] matches Some(a)
            &&& a.shape@ == t.shape@
            &&& a.cell_ids@.len() == t.data@.len()
            &&& 0 <= spec_cells_before(s, id)
            &&& spec_cells_before(s, id) + t.data@.len() <= arena.len()
            &&& (forall|j: int|
                0 <= j < t.data@.len() ==> #[trigger] a.cell_ids@[j] == spec_cells_before(
                    s,
                    id,
                ) + j)
            &&& (forall|c: int|
                spec_cells_before(s, id) <= c < spec_cells_before(s, id) + t.data@.len()
                    ==> #[trigger] arena[c] == t.data@[c - spec_cells_before(s, id)])
        },
        None => assigned[id] is None,
    }
}

/// The whole relation between a tensor store and its placement into the
/// advice cell arena: tensors are laid out in id order, each flattened
/// row-major.
pub open spec fn spec_assignment_ok(
    s: Seq<Option<Tensor>>,
    arena: Seq<Felt>,
    assigned: Seq<Option<AssignedTensor>>,
) -> bool {
    &&& assigned.len() == s.len()
    &&& arena.len() == spec_cells_before(s, s.len() as int)
    &&& forall|id: int| 0 <= id < s.len() ==> #[trigger] spec_assigned_entry_ok(s, arena, assigned, id)
}

/// Cell counts grow with the id.
proof fn lemma_cells_before_mono(s: Seq<Option<Tensor>>, a: int, b: int)
    requires
        0 <= a <= b,
    ensures
        spec_cells_before(s, a) <= spec_cells_before(s, b),
    decreases b - a,
{
    if a < b {
        lemma_cells_before_mono(s, a, b - 1);
    }
}

impl ModelCircuit {
    /// Place every input tensor's elements into the advice cell arena, in
    /// id order and row-major within each tensor. A cell index `c` sits at
    /// row `c / num_cols` and column `c % num_cols` of the advice region.
    pub fn assign_tensors(&self, num_cols: usize) -> (r: (Vec<Felt>, Vec<Option<AssignedTensor>>))
        requires
            store_wf(self.tensors@),
            num_cols >= 1,
        ensures
            spec_assignment_ok(self.tensors@, r.0@, r.1@),
            forall|c: int| 0 <= c < r.0@.len() ==> (#[trigger] r.0@[c]).wf(),
    {
        let ghost s = self.tensors@;
        let mut arena: Vec<Felt> = Vec::new();
        let mut assigned: Vec<Option<AssignedTensor>> = Vec::new();
        let mut id: usize = 0;
        while id < self.tensors.len()
            invariant
                0 <= id <= s.len(),
                s == self.tensors@,
                store_wf(s),
                assigned@.len() == id,
                arena@.len() == spec_cells_before(s, id as int),
                forall|c: int| 0 <= c < arena@.len() ==> (#[trigger] arena@[c]).wf(),
                forall|i: int|
                    0 <= i < id ==> #[trigger] spec_assigned_entry_ok(s, arena@, assigned@, i),
            decreases s.len() - id,
        {
            let ghost arena0 = arena@;
            let ghost assigned0 = assigned@;
            let ghost base = arena@.len() as int;
            match &self.tensors[id] {
                Some(t) => {
                    let mut cell_ids: Vec<usize> = Vec::new();
                    let mut j: usize = 0;
                    while j < t.data.len()
                        invariant
                            0 <= j <= t.data@.len(),
                            t.wf(),
                            base == arena0.len(),
                            arena@.len() == base + j,
                            cell_ids@.len() == j,
                            forall|x: int| 0 <= x < base ==> arena@[x] == arena0[x],
                            forall|x: int| 0 <= x < j ==> #[trigger] cell_ids@[x] == base + x,
                            forall|x: int|
                                0 <= x < j ==> arena@[base + x] == #[trigger] t.data@[x],
                            forall|c: int| 0 <= c < arena0.len() ==> (#[trigger] arena0[c]).wf(),
                            forall|c: int| 0 <= c < arena@.len() ==> (#[trigger] arena@[c]).wf(),
                        decreases t.data@.len() - j,
                    {
                        cell_ids.push(arena.len());
                        arena.push(t.data[j]);
                        j += 1;
                    }
                    let a = AssignedTensor { shape: copy_dims(&t.shape), cell_ids };
                    assigned.push(Some(a));
                    proof {
                        assert(s[id as int] == Some(*t));
                        assert(assigned@[id as int] == Some(a));
                        assert(a.shape@ == t.shape@);
                        assert(a.cell_ids@.len() == t.data@.len());
                        assert(base == spec_cells_before(s, id as int));
                        assert(forall|j2: int|
                            0 <= j2 < t.data@.len() ==> #[trigger] a.cell_ids@[j2]
                                == spec_cells_before(s, id as int) + j2);
                        assert forall|c: int|
                            base <= c < base + t.data@.len() implies #[trigger] arena@[c]
                            == t.data@[c - base] by {
                            assert(arena@[base + (c - base)] == t.data@[c - base]);
                        }
                        assert(spec_assigned_entry_ok(s, arena@, assigned@, id as int));
                    }
                },
                None => {
                    assigned.push(None);
                    proof {
                        assert(s[id as int] is None);
                        assert(spec_assigned_entry_ok(s, arena@, assigned@, id as int));
                    }
                },
            }
            proof {
                assert(arena@.len() == spec_cells_before(s, id as int + 1));
                assert forall|i2: int|
                    0 <= i2 < id + 1 implies #[trigger] spec_assigned_entry_ok(
                    s,
                    arena@,
                    assigned@,
                    i2,
                ) by {
                    if i2 < id {
                        assert(spec_assigned_entry_ok(s, arena0, assigned0, i2));
                        lemma_cells_before_mono(s, i2 + 1, id as int);
                        assert(spec_cells_before(s, i2 + 1) == spec_cells_before(s, i2) + (
                        match s[i2] {
                            Some(t2) => t2.data@.len() as int,
                            None => 0,
                        }));
                        assert(spec_cells_before(s, i2 + 1) <= base);
                        assert(assigned@[i2] == assigned0[i2]);
                        assert(arena@.len() >= arena0.len());
                        if s[i2] is Some {
                            let t2 = s[i2]->0;
                            let cb = spec_cells_before(s, i2);
                            assert forall|c: int| cb <= c < cb + t2.data@.len() implies #[trigger]
                            arena@[c] == t2.data@[c - cb] by {
                                assert(arena0[c] == t2.data@[c - cb]);
                                assert(c < base);
                                assert(arena@[c] == arena0[c]);
                            }
                        } else {
                            assert(assigned@[i2] is None);
                        }
                        assert(spec_assigned_entry_ok(s, arena@, assigned@, i2));
                    } else {
                        assert(i2 == id);
                        assert(spec_assigned_entry_ok(s, arena@, assigned@, i2));
                    }
                }
            }
            id += 1;
        }
        proof {
            assert(spec_assignment_ok(s, arena@, assigned@));
        }
        (arena, assigned)
    }

    /// Assign the five named constants into rows 0 through 4 of the fixed
    /// column: the field encodings of zero, one, the scale factor, the
    /// least representable value and the greatest value in the lookup
    /// domain (one below the exclusive range bound).
    pub fn assign_constants(&self, cfg: &GadgetConfig) -> (r: Vec<Felt>)
        requires
            cfg.wf(),
        ensures
            r@.len() == 5,
            forall|c: int| 0 <= c < 5 ==> (#[trigger] r@[c]).wf(),
            r@[0].residue() == field_encoding(0),
            r@[1].residue() == field_encoding(1),
            r@[2].residue() == field_encoding(cfg.scale_factor as int),
            r@[3].residue() == field_encoding(cfg.min_val as int),
            r@[4].residue() == field_encoding(cfg.max_val - 1),
    {
        let mut fixed: Vec<Felt> = Vec::new();
        fixed.push(encode(0));
        fixed.push(encode(1));
        fixed.push(encode(cfg.scale_factor as i64));
        fixed.push(encode(cfg.min_val));
        fixed.push(encode(cfg.max_val - 1));
        fixed
    }

    /// Declare the circuit's constraint structure from the registry alone:
    /// allocate the advice, public and fixed columns, configure the fixed
    /// bias-divide-round-relu6 gadget first, then every other gadget the
    /// model uses. A gadget kind with no configuration is fatal.
    pub fn configure(cfg: &GadgetConfig) -> (r: Result<ModelConfig, CircuitError>)
        requires
            cfg.wf(),
        ensures
            r is Ok <==> !(cfg.used_gadgets@.contains(GadgetType::BiasDivFloorRelu6)
                || cfg.used_gadgets@.contains(GadgetType::Packer)),
            match r {
                Ok(mc) => {
                    &&& mc.num_advice_columns == cfg.num_cols
                    &&& mc.num_public_columns == 1
                    &&& mc.num_fixed_columns == 1
                    &&& mc.configured_gadgets@.len() >= 1
                    &&& mc.configured_gadgets@[0] == GadgetType::BiasDivRoundRelu6
                    &&& (forall|g: GadgetType|
                        mc.configured_gadgets@.contains(g) <==> g == GadgetType::BiasDivRoundRelu6
                            || cfg.used_gadgets@.contains(g))
                },
                Err(e) => e matches CircuitError::UnsupportedGadget { gadget }
                    && (gadget == GadgetType::BiasDivFloorRelu6 || gadget == GadgetType::Packer)
                    && cfg.used_gadgets@.contains(gadget),
            },
    {
        let mut configured: Vec<GadgetType> = Vec::new();
        configured.push(GadgetType::BiasDivRoundRelu6);
        let mut i: usize = 0;
        while i < cfg.used_gadgets.len()
            invariant
                0 <= i <= cfg.used_gadgets@.len(),
                configured@.len() >= 1,
                configured@[0] == GadgetType::BiasDivRoundRelu6,
                forall|g: GadgetType|
                    configured@.contains(g) <==> g == GadgetType::BiasDivRoundRelu6
                        || cfg.used_gadgets@.take(i as int).contains(g),
                forall|j: int|
                    0 <= j < i ==> cfg.used_gadgets@[j] != GadgetType::BiasDivFloorRelu6
                        && cfg.used_gadgets@[j] != GadgetType::Packer,
            decreases cfg.used_gadgets@.len() - i,
        {
            let g = cfg.used_gadgets[i];
            let ghost prev = configured@;
            match g {
                GadgetType::BiasDivFloorRelu6 => {
                    return Err(CircuitError::UnsupportedGadget { gadget: g });
                },
                GadgetType::Packer => {
                    return Err(CircuitError::UnsupportedGadget { gadget: g });
                },
                _ => {},
            }
            let present = gadget_list_contains(&configured, g);
            if !present {
                configured.push(g);
            }
            proof {
                assert forall|h: GadgetType| prev.contains(h) implies configured@.contains(h) by {
                    if !present {
                        assert(configured@ =~= prev.push(g));
                        lemma_push_contains(prev, g, h);
                    }
                }
                if !present {
                    assert(configured@ =~= prev.push(g));
                    assert(configured@[prev.len() as int] == g);
                }
                assert(configured@.contains(g));
                assert forall|h: GadgetType| configured@.contains(h) implies h
                    == GadgetType::BiasDivRoundRelu6 || cfg.used_gadgets@.take(
                    i as int + 1,
                ).contains(h) by {
                    if !present {
                        assert(configured@ =~= prev.push(g));
                        lemma_push_contains(prev, g, h);
                    }
                    lemma_take_succ_contains(cfg.used_gadgets@, i as int, h);
                    if h != GadgetType::BiasDivRoundRelu6 {
                        assert(prev.contains(h) || h == g);
                        if h == g {
                            assert(cfg.used_gadgets@.take(i as int + 1).contains(h));
                        } else {
                            assert(cfg.used_gadgets@.take(i as int).contains(h));
                        }
                    }
                }
                assert forall|h: GadgetType|
                    cfg.used_gadgets@.take(i as int + 1).contains(h) implies configured@.contains(
                    h,
                ) by {
                    lemma_take_succ_contains(cfg.used_gadgets@, i as int, h);
                    if h == cfg.used_gadgets@[i as int] {
                        assert(h == g);
                        assert(configured@.contains(g));
                    } else {
                        assert(cfg.used_gadgets@.take(i as int).contains(h));
                        assert(prev.contains(h));
                    }
                }
            }
            i += 1;
        }
        proof {
            assert(cfg.used_gadgets@.take(cfg.used_gadgets@.len() as int) =~= cfg.used_gadgets@);
        }
        Ok(
            ModelConfig {
                num_advice_columns: cfg.num_cols,
                num_public_columns: 1,
                num_fixed_columns: 1,
                configured_gadgets: configured,
            },
        )
    }
}


/// Whether the gadget library has a lookup-table loading strategy for a
/// kind; a used kind without one is fatal at witness-assignment time.
pub open spec fn spec_has_load_strategy(g: GadgetType) -> bool {
    match g {
        GadgetType::AddPairs => true,
        GadgetType::Adder => true,
        GadgetType::BiasDivRoundRelu6 => true,
        GadgetType::DotProduct => true,
        GadgetType::VarDivRound => true,
        GadgetType::Rsqrt => true,
        GadgetType::Exp => true,
        GadgetType::Logistic => true,
        _ => false,
    }
}

/// A supplied kernel value table covers the whole domain with admissible
/// values.
pub open spec fn spec_kernel_table_ok(cfg: GadgetConfig, outs: Seq<i64>) -> bool {
    &&& outs.len() == cfg.max_val - cfg.min_val
    &&& forall|i: int| 0 <= i < outs.len() ==> cfg.min_val <= #[trigger] outs[i] < cfg.max_val
}

/// The tables that loading produces: one per nonlinear gadget in use.
pub open spec fn spec_loaded_tables(cfg: GadgetConfig, kernels: KernelTables) -> LoadedTables {
    LoadedTables {
        rsqrt: if cfg.used_gadgets@.contains(GadgetType::Rsqrt) {
            Some(
                LookupTable {
                    min_val: cfg.min_val,
                    max_val: cfg.max_val,
                    out_values: kernels.rsqrt,
                },
            )
        } else {
            None
        },
        exp: if cfg.used_gadgets@.contains(GadgetType::Exp) {
            Some(
                LookupTable { min_val: cfg.min_val, max_val: cfg.max_val, out_values: kernels.exp },
            )
        } else {
            None
        },
        logistic: if cfg.used_gadgets@.contains(GadgetType::Logistic) {
            Some(
                LookupTable {
                    min_val: cfg.min_val,
                    max_val: cfg.max_val,
                    out_values: kernels.logistic,
                },
            )
        } else {
            None
        },
    }
}

/// Everything table loading checks: the domain fits the row budget, every
/// used gadget has a loading strategy, and every needed kernel table covers
/// the domain.
pub open spec fn spec_lookups_ok(cfg: GadgetConfig, kernels: KernelTables) -> bool {
    &&& cfg.max_val - cfg.min_val <= cfg.num_rows
    &&& (forall|j: int|
        0 <= j < cfg.used_gadgets@.len() ==> spec_has_load_strategy(
            #[trigger] cfg.used_gadgets@[j],
        ))
    &&& (cfg.used_gadgets@.contains(GadgetType::Rsqrt) ==> spec_kernel_table_ok(
        cfg,
        kernels.rsqrt@,
    ))
    &&& (cfg.used_gadgets@.contains(GadgetType::Exp) ==> spec_kernel_table_ok(cfg, kernels.exp@))
    &&& (cfg.used_gadgets@.contains(GadgetType::Logistic) ==> spec_kernel_table_ok(
        cfg,
        kernels.logistic@,
    ))
}

/// Materialize every used gadget's lookup table over the declared value
/// domain: the fixed range table is bounded by the row budget, and each
/// nonlinear gadget in use gets its supplied value table, checked for
/// coverage. A used kind with no strategy is fatal.
pub fn load_lookups(cfg: &GadgetConfig, kernels: KernelTables) -> (r: Result<
    LoadedTables,
    CircuitError,
>)
    requires
        cfg.wf(),
    ensures
        r is Ok <==> spec_lookups_ok(*cfg, kernels),
        r matches Ok(t) ==> t == spec_loaded_tables(*cfg, kernels) && t.wf(*cfg),
{
    let domain: u64 = (cfg.max_val - cfg.min_val) as u64;
    if domain > cfg.num_rows {
        return Err(CircuitError::SizeMismatch);
    }
    let mut gi: usize = 0;
    while gi < cfg.used_gadgets.len()
        invariant
            0 <= gi <= cfg.used_gadgets@.len(),
            forall|j: int| 0 <= j < gi ==> spec_has_load_strategy(#[trigger] cfg.used_gadgets@[j]),
        decreases cfg.used_gadgets@.len() - gi,
    {
        let g = cfg.used_gadgets[gi];
        match g {
            GadgetType::AddPairs => {},
            GadgetType::Adder => {},
            GadgetType::BiasDivRoundRelu6 => {},
            GadgetType::DotProduct => {},
            GadgetType::VarDivRound => {},
            GadgetType::Rsqrt => {},
            GadgetType::Exp => {},
            GadgetType::Logistic => {},
            _ => {
                return Err(CircuitError::NoLookupStrategy { gadget: g });
            },
        }
        gi += 1;
    }
    let KernelTables { rsqrt, exp, logistic } = kernels;
    let rsqrt_table = if gadget_list_contains(&cfg.used_gadgets, GadgetType::Rsqrt) {
        match load_lookup_table(cfg.min_val, cfg.max_val, cfg.num_rows, rsqrt) {
            Ok(t) => Some(t),
            Err(e) => {
                return Err(e);
            },
        }
    } else {
        None
    };
    let exp_table = if gadget_list_contains(&cfg.used_gadgets, GadgetType::Exp) {
        match load_lookup_table(cfg.min_val, cfg.max_val, cfg.num_rows, exp) {
            Ok(t) => Some(t),
            Err(e) => {
                return Err(e);
            },
        }
    } else {
        None
    };
    let logistic_table = if gadget_list_contains(&cfg.used_gadgets, GadgetType::Logistic) {
        match load_lookup_table(cfg.min_val, cfg.max_val, cfg.num_rows, logistic) {
            Ok(t) => Some(t),
            Err(e) => {
                return Err(e);
            },
        }
    } else {
        None
    };
    Ok(LoadedTables { rsqrt: rsqrt_table, exp: exp_table, logistic: logistic_table })
}

/// The public values of a run: the data of the final output tensors,
/// flattened in order.
pub open spec fn spec_flatten_data(ts: Seq<Tensor>) -> Seq<Felt>
    decreases ts.len(),
{
    if ts.len() == 0 {
        Seq::empty()
    } else {
        spec_flatten_data(ts.drop_last()) + ts.last().data@
    }
}

/// Copy the final output tensors' field values, in order, into the public
/// column region.
pub fn flatten_outputs(outs: &Vec<Tensor>) -> (r: Vec<Felt>)
    ensures
        r@ == spec_flatten_data(outs@),
{
    let mut r: Vec<Felt> = Vec::new();
    let mut i: usize = 0;
    while i < outs.len()
        invariant
            0 <= i <= outs@.len(),
            r@ == spec_flatten_data(outs@.take(i as int)),
        decreases outs@.len() - i,
    {
        let t = &outs[i];
        let mut j: usize = 0;
        while j < t.data.len()
            invariant
                0 <= j <= t.data@.len(),
                0 <= i < outs@.len(),
                *t == outs@[i as int],
                r@ == spec_flatten_data(outs@.take(i as int)) + t.data@.take(j as int),
            decreases t.data@.len() - j,
        {
            r.push(t.data[j]);
            proof {
                assert(t.data@.take(j as int + 1) =~= t.data@.take(j as int).push(
                    t.data@[j as int],
                ));
                assert(r@ =~= spec_flatten_data(outs@.take(i as int)) + t.data@.take(
                    j as int + 1,
                ));
            }
            j += 1;
        }
        proof {
            assert(outs@.take(i as int + 1).drop_last() =~= outs@.take(i as int));
            assert(outs@.take(i as int + 1).last() == outs@[i as int]);
            assert(t.data@.take(t.data@.len() as int) =~= t.data@);
            assert(r@ =~= spec_flatten_data(outs@.take(i as int + 1)));
        }
        i += 1;
    }
    proof {
        assert(outs@.take(outs@.len() as int) =~= outs@);
    }
    r
}

impl ModelCircuit {
    /// Witness assignment, in the fixed order the proving system demands:
    /// load every used gadget's lookup table, place the input tensors into
    /// the advice cells row-major, assign the five named constants into the
    /// fixed column, run the DAG executor, and expose the final output
    /// tensors' values as the public values.
    pub fn synthesize(&self, cfg: &GadgetConfig, kernels: KernelTables) -> (r: Result<
        SynthesisOutput,
        CircuitError,
    >)
        requires
            cfg.wf(),
            store_wf(self.tensors@),
            self.dag_config.wf(),
            cfg.num_cols >= 1,
        ensures
            r is Ok <==> spec_lookups_ok(*cfg, kernels) && spec_dag_eval(
                *cfg,
                spec_loaded_tables(*cfg, kernels),
                self.dag_config,
                store_view(self.tensors@),
            ) is Some,
            match r {
                Ok(out) => {
                    &&& spec_assignment_ok(self.tensors@, out.advice_cells@, out.assigned@)
                    &&& out.fixed_column@.len() == 5
                    &&& out.fixed_column@[0].residue() == field_encoding(0)
                    &&& out.fixed_column@[1].residue() == field_encoding(1)
                    &&& out.fixed_column@[2].residue() == field_encoding(cfg.scale_factor as int)
                    &&& out.fixed_column@[3].residue() == field_encoding(cfg.min_val as int)
                    &&& out.fixed_column@[4].residue() == field_encoding(cfg.max_val - 1)
                    &&& spec_dag_eval(
                        *cfg,
                        spec_loaded_tables(*cfg, kernels),
                        self.dag_config,
                        store_view(self.tensors@),
                    ) == Some(views_of(out.outputs@))
                    &&& out.public_values@ == spec_flatten_data(out.outputs@)
                },
                Err(_) => true,
            },
    {
        let tables = match load_lookups(cfg, kernels) {
            Ok(t) => t,
            Err(e) => {
                return Err(e);
            },
        };
        let (advice_cells, assigned) = self.assign_tensors(cfg.num_cols);
        let fixed_column = self.assign_constants(cfg);
        let (store, outputs) = match dag_forward(cfg, &tables, &self.dag_config, &self.tensors) {
            Ok(p) => p,
            Err(e) => {
                return Err(e);
            },
        };
        let public_values = flatten_outputs(&outputs);
        Ok(
            SynthesisOutput {
                advice_cells,
                assigned,
                fixed_column,
                store,
                outputs,
                public_values,
            },
        )
    }
}

/// The row of the fixed column that carries a named constant, mirroring the
/// constant map keyed by value: the greatest-value key wins over the others
/// where values coincide, and note that the row keyed by the exclusive
/// range bound carries the encoding of the bound minus one.
pub fn constant_row(cfg: &GadgetConfig, value: i64) -> (r: Option<usize>)
    requires
        cfg.wf(),
    ensures
        r == (if value == cfg.max_val {
            Some(4usize)
        } else if value == cfg.min_val {
            Some(3usize)
        } else if value == cfg.scale_factor {
            Some(2usize)
        } else if value == 1 {
            Some(1usize)
        } else if value == 0 {
            Some(0usize)
        } else {
            None::<usize>
        }),
{
    if value == cfg.max_val {
        Some(4)
    } else if value == cfg.min_val {
        Some(3)
    } else if value >= 0 && value as u64 == cfg.scale_factor {
        Some(2)
    } else if value == 1 {
        Some(1)
    } else if value == 0 {
        Some(0)
    } else {
        None
    }
}

} // verus!
