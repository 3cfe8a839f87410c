//! Layer chips: the forward pass of each layer kind, computed exclusively
//! through gadget calls on constrained values.
//!
//! A forward pass validates that the input tensors carry the layer's
//! declared input shapes, computes through the gadget library, and produces
//! output tensors carrying the declared output shapes. The arithmetic
//! kernels of the remaining layer kinds (convolution, pooling, matrix
//! products, reductions, masking, softmax, axis permutation) live with the
//! external gadget collaborators and are reported as such.

use vstd::prelude::*;
use crate::config::{GadgetConfig, LayerConfig, LayerType};
use crate::error::CircuitError;
use crate::felt;
use crate::gadgets::{
    add_pairs, lookup, mul_pairs, spec_add_pairs, spec_mul_pairs, spec_squared_diff,
    spec_sub_pairs, spec_var_div, squared_diff, sub_pairs, var_div_round, LoadedTables,
    LookupTable,
};
use crate::tensor::{copy_dims, shape_num_elements, shape_size, shapes_equal, Tensor, TensorView};

verus! {

/// All values lie in the registry's declared range `[min_val, max_val)`.
pub open spec fn in_domain(cfg: GadgetConfig, vals: Seq<int>) -> bool {
    forall|i: int| 0 <= i < vals.len() ==> cfg.min_val <= #[trigger] vals[i] < cfg.max_val
}

/// The mathematical models of a sequence of tensors.
pub open spec fn views_of(ts: Seq<Tensor>) -> Seq<TensorView> {
    ts.map_values(|t: Tensor| t@)
}

/// The structural conditions a layer demands of its inputs: one declared
/// output, inputs matching the declared input shapes element for element,
/// and the kind-specific shape relations.
pub open spec fn spec_layer_shapes_ok(layer: LayerConfig, inputs: Seq<TensorView>) -> bool {
    &&& layer.out_shapes@.len() == 1
    &&& inputs.len() == layer.inp_shapes@.len()
    &&& (forall|i: int|
        0 <= i < inputs.len() ==> (#[trigger] inputs[i]).shape == layer.inp_shapes@[i]@)
    &&& (forall|i: int|
        0 <= i < inputs.len() ==> (#[trigger] inputs[i]).vals.len() == shape_size(
            inputs[i].shape,
        ))
    &&& match layer.layer_type {
        LayerType::Add | LayerType::Sub | LayerType::Mul | LayerType::SquaredDifference => {
            &&& inputs.len() == 2
            &&& inputs[0].shape == inputs[1].shape
            &&& layer.out_shapes@[0]@ == layer.inp_shapes@[0]@
        },
        LayerType::Noop | LayerType::Square | LayerType::Logistic | LayerType::Rsqrt => {
            &&& inputs.len() == 1
            &&& layer.out_shapes@[0]@ == layer.inp_shapes@[0]@
        },
        LayerType::Reshape => {
            &&& inputs.len() == 1
            &&& shape_size(layer.out_shapes@[0]@) == shape_size(layer.inp_shapes@[0]@)
        },
        _ => true,
    }
}

/// The flat values of the one output tensor a layer kind produces from its
/// input values, or `None` for a kind whose kernel lives outside this crate
/// or whose lookup table is absent.
pub open spec fn spec_kernel_vals(
    cfg: GadgetConfig,
    tables: LoadedTables,
    layer: LayerConfig,
    inputs: Seq<TensorView>,
) -> Option<Seq<int>> {
    let sf = cfg.scale_factor as int;
    match layer.layer_type {
        LayerType::Add => Some(spec_add_pairs(inputs[0].vals, inputs[1].vals)),
        LayerType::Sub => Some(spec_sub_pairs(inputs[0].vals, inputs[1].vals)),
        LayerType::Mul => Some(spec_var_div(spec_mul_pairs(inputs[0].vals, inputs[1].vals), sf)),
        LayerType::SquaredDifference => Some(
            spec_var_div(spec_squared_diff(inputs[0].vals, inputs[1].vals), sf),
        ),
        LayerType::Square => Some(spec_var_div(spec_mul_pairs(inputs[0].vals, inputs[0].vals), sf)),
        LayerType::Noop => Some(inputs[0].vals),
        LayerType::Reshape => Some(inputs[0].vals),
        LayerType::Logistic => match tables.logistic {
            Some(t) => Some(Seq::new(inputs[0].vals.len(), |i: int| t.entry(inputs[0].vals[i]))),
            None => None,
        },
        LayerType::Rsqrt => match tables.rsqrt {
            Some(t) => Some(Seq::new(inputs[0].vals.len(), |i: int| t.entry(inputs[0].vals[i]))),
            None => None,
        },
        _ => None,
    }
}

/// The full layer contract: shape validation, input domain membership,
/// the kernel's function, and domain membership of the produced values
/// (an out-of-domain value is rejected, never wrapped).
pub open spec fn spec_layer_eval(
    cfg: GadgetConfig,
    tables: LoadedTables,
    layer: LayerConfig,
    inputs: Seq<TensorView>,
) -> Option<Seq<int>> {
    if !spec_layer_shapes_ok(layer, inputs) {
        None
    } else if !(forall|i: int|
        0 <= i < inputs.len() ==> in_domain(cfg, (#[trigger] inputs[i]).vals)) {
        None
    } else {
        match spec_kernel_vals(cfg, tables, layer, inputs) {
            Some(vals) => if in_domain(cfg, vals) {
                Some(vals)
            } else {
                None
            },
            None => None,
        }
    }
}

/// Decode every element of a tensor to its signed quantized value,
/// rejecting any element outside the registry's declared range.
fn decode_tensor_vals(cfg: &GadgetConfig, t: &Tensor) -> (r: Result<Vec<i64>, CircuitError>)
    requires
        cfg.wf(),
        t.wf(),
    ensures
        match r {
            Ok(v) => {
                &&& v@.map_values(|x: i64| x as int) == t@.vals
                &&& in_domain(*cfg, t@.vals)
                &&& crate::gadgets::vals_bounded(v@.map_values(|x: i64| x as int), 0x800_0000)
            },
            Err(e) => e == CircuitError::ValueOutOfRange && !in_domain(*cfg, t@.vals),
        },
{
    let mut v: Vec<i64> = Vec::new();
    let mut i: usize = 0;
    while i < t.data.len()
        invariant
            0 <= i <= t.data@.len(),
            cfg.wf(),
            t.wf(),
            v@.len() == i,
            forall|j: int|
                0 <= j < i ==> #[trigger] v@[j] as int == t@.vals[j] && cfg.min_val <= v@[j]
                    < cfg.max_val,
        decreases t.data@.len() - i,
    {
        match felt::decode(t.data[i], cfg.min_val, cfg.max_val) {
            Ok(x) => {
                v.push(x);
            },
            Err(_) => {
                assert(t@.vals[i as int] == t.data@[i as int].signed_rep());
                return Err(CircuitError::ValueOutOfRange);
            },
        }
        i += 1;
    }
    proof {
        assert(v@.map_values(|x: i64| x as int) =~= t@.vals);
    }
    Ok(v)
}

/// Encode computed values back into field elements under the declared
/// output shape, rejecting any value outside the registry's range.
fn encode_output(cfg: &GadgetConfig, vals: &Vec<i64>, shape: Vec<usize>) -> (r: Result<
    Tensor,
    CircuitError,
>)
    requires
        cfg.wf(),
        shape_size(shape@) == vals@.len(),
    ensures
        match r {
            Ok(t) => {
                &&& in_domain(*cfg, vals@.map_values(|x: i64| x as int))
                &&& t.wf()
                &&& t.in_range(cfg.min_val as int, cfg.max_val as int)
                &&& t.shape@ == shape@
                &&& t@.shape == shape@
                &&& t@.vals == vals@.map_values(|x: i64| x as int)
            },
            Err(e) => e == CircuitError::ValueOutOfRange && !in_domain(
                *cfg,
                vals@.map_values(|x: i64| x as int),
            ),
        },
{
    let mut data: Vec<crate::felt::Felt> = Vec::new();
    let mut i: usize = 0;
    while i < vals.len()
        invariant
            0 <= i <= vals@.len(),
            cfg.wf(),
            data@.len() == i,
            forall|j: int|
                0 <= j < i ==> (#[trigger] data@[j]).wf() && data@[j].signed_rep() == vals@[j]
                    as int && cfg.min_val <= data@[j].signed_rep() < cfg.max_val,
        decreases vals@.len() - i,
    {
        let x = vals[i];
        if x < cfg.min_val || x >= cfg.max_val {
            assert(vals@.map_values(|v: i64| v as int)[i as int] == x as int);
            return Err(CircuitError::ValueOutOfRange);
        }
        data.push(felt::encode(x));
        i += 1;
    }
    let t = Tensor { shape, data };
    proof {
        assert(t@.vals =~= vals@.map_values(|x: i64| x as int));
        let m = vals@.map_values(|x: i64| x as int);
        assert(forall|j: int| 0 <= j < m.len() ==> cfg.min_val <= #[trigger] m[j] < cfg.max_val);
    }
    Ok(t)
}

/// Run one layer's forward pass: validate the declared shapes, compute the
/// kernel through the gadget library, and produce the one output tensor
/// under the layer's declared output shape.
#[verifier::rlimit(40)]
pub fn layer_forward(
    cfg: &GadgetConfig,
    tables: &LoadedTables,
    layer: &LayerConfig,
    inputs: &Vec<Tensor>,
) -> (r: Result<Vec<Tensor>, CircuitError>)
    requires
        cfg.wf(),
        tables.wf(*cfg),
        forall|i: int| 0 <= i < inputs@.len() ==> (#[trigger] inputs@[i]).wf(),
    ensures
        match r {
            Ok(outs) => {
                &&& spec_layer_eval(*cfg, *tables, *layer, views_of(inputs@)) == Some(
                    outs[0]@.vals,
                )
                &&& outs@.len() == 1
                &&& layer.out_shapes@.len() == 1
                &&& outs[0].wf()
                &&& outs[0].in_range(cfg.min_val as int, cfg.max_val as int)
                &&& outs[0].shape@ == layer.out_shapes@[0]@
            },
            Err(_) => spec_layer_eval(*cfg, *tables, *layer, views_of(inputs@)) is None,
        },
{
    let ghost vs = views_of(inputs@);
    proof {
        assert(forall|i: int| 0 <= i < inputs@.len() ==> vs[i] == (#[trigger] inputs@[i])@);
    }
    if layer.out_shapes.len() != 1 {
        return Err(CircuitError::ShapeMismatch);
    }
    if inputs.len() != layer.inp_shapes.len() {
        return Err(CircuitError::ShapeMismatch);
    }
    let mut i: usize = 0;
    while i < inputs.len()
        invariant
            0 <= i <= inputs@.len(),
            inputs@.len() == layer.inp_shapes@.len(),
            vs == views_of(inputs@),
            forall|j: int| 0 <= j < inputs@.len() ==> vs[j] == (#[trigger] inputs@[j])@,
            forall|j: int| 0 <= j < i ==> (#[trigger] vs[j]).shape == layer.inp_shapes@[j]@,
        decreases inputs@.len() - i,
    {
        if !shapes_equal(&inputs[i].shape, &layer.inp_shapes[i]) {
            return Err(CircuitError::ShapeMismatch);
        }
        i += 1;
    }
    proof {
        assert(forall|j: int|
            0 <= j < inputs@.len() ==> (#[trigger] vs[j]).vals.len() == shape_size(vs[j].shape));
    }
    match layer.layer_type {
        LayerType::Add => {
            if inputs.len() != 2 {
                return Err(CircuitError::ShapeMismatch);
            }
            if !shapes_equal(&inputs[0].shape, &inputs[1].shape) {
                return Err(CircuitError::ShapeMismatch);
            }
            if !shapes_equal(&layer.out_shapes[0], &layer.inp_shapes[0]) {
                return Err(CircuitError::ShapeMismatch);
            }
            let a = match decode_tensor_vals(cfg, &inputs[0]) {
                Ok(v) => v,
                Err(e) => {
                    return Err(e);
                },
            };
            let b = match decode_tensor_vals(cfg, &inputs[1]) {
                Ok(v) => v,
                Err(e) => {
                    return Err(e);
                },
            };
            let vals = add_pairs(&a, &b);
            let shape = copy_dims(&layer.out_shapes[0]);
            match encode_output(cfg, &vals, shape) {
                Ok(t) => {
                    let mut outs: Vec<Tensor> = Vec::new();
                    outs.push(t);
                    Ok(outs)
                },
                Err(e) => Err(e),
            }
        },
        LayerType::Sub => {
            if inputs.len() != 2 {
                return Err(CircuitError::ShapeMismatch);
            }
            if !shapes_equal(&inputs[0].shape, &inputs[1].shape) {
                return Err(CircuitError::ShapeMismatch);
            }
            if !shapes_equal(&layer.out_shapes[0], &layer.inp_shapes[0]) {
                return Err(CircuitError::ShapeMismatch);
            }
            let a = match decode_tensor_vals(cfg, &inputs[0]) {
                Ok(v) => v,
                Err(e) => {
                    return Err(e);
                },
            };
            let b = match decode_tensor_vals(cfg, &inputs[1]) {
                Ok(v) => v,
                Err(e) => {
                    return Err(e);
                },
            };
            let vals = sub_pairs(&a, &b);
            let shape = copy_dims(&layer.out_shapes[0]);
            match encode_output(cfg, &vals, shape) {
                Ok(t) => {
                    let mut outs: Vec<Tensor> = Vec::new();
                    outs.push(t);
                    Ok(outs)
                },
                Err(e) => Err(e),
            }
        },
        LayerType::Mul => {
            if inputs.len() != 2 {
                return Err(CircuitError::ShapeMismatch);
            }
            if !shapes_equal(&inputs[0].shape, &inputs[1].shape) {
                return Err(CircuitError::ShapeMismatch);
            }
            if !shapes_equal(&layer.out_shapes[0], &layer.inp_shapes[0]) {
                return Err(CircuitError::ShapeMismatch);
            }
            let a = match decode_tensor_vals(cfg, &inputs[0]) {
                Ok(v) => v,
                Err(e) => {
                    return Err(e);
                },
            };
            let b = match decode_tensor_vals(cfg, &inputs[1]) {
                Ok(v) => v,
                Err(e) => {
                    return Err(e);
                },
            };
            let prods = mul_pairs(&a, &b);
            let vals = var_div_round(&prods, cfg.scale_factor as i64);
            let shape = copy_dims(&layer.out_shapes[0]);
            match encode_output(cfg, &vals, shape) {
                Ok(t) => {
                    let mut outs: Vec<Tensor> = Vec::new();
                    outs.push(t);
                    Ok(outs)
                },
                Err(e) => Err(e),
            }
        },
        LayerType::SquaredDifference => {
            if inputs.len() != 2 {
                return Err(CircuitError::ShapeMismatch);
            }
            if !shapes_equal(&inputs[0].shape, &inputs[1].shape) {
                return Err(CircuitError::ShapeMismatch);
            }
            if !shapes_equal(&layer.out_shapes[0], &layer.inp_shapes[0]) {
                return Err(CircuitError::ShapeMismatch);
            }
            let a = match decode_tensor_vals(cfg, &inputs[0]) {
                Ok(v) => v,
                Err(e) => {
                    return Err(e);
                },
            };
            let b = match decode_tensor_vals(cfg, &inputs[1]) {
                Ok(v) => v,
                Err(e) => {
                    return Err(e);
                },
            };
            let diffs = squared_diff(&a, &b);
            let vals = var_div_round(&diffs, cfg.scale_factor as i64);
            let shape = copy_dims(&layer.out_shapes[0]);
            match encode_output(cfg, &vals, shape) {
                Ok(t) => {
                    let mut outs: Vec<Tensor> = Vec::new();
                    outs.push(t);
                    Ok(outs)
                },
                Err(e) => Err(e),
            }
        },
        LayerType::Square => {
            if inputs.len() != 1 {
                return Err(CircuitError::ShapeMismatch);
            }
            if !shapes_equal(&layer.out_shapes[0], &layer.inp_shapes[0]) {
                return Err(CircuitError::ShapeMismatch);
            }
            let a = match decode_tensor_vals(cfg, &inputs[0]) {
                Ok(v) => v,
                Err(e) => {
                    return Err(e);
                },
            };
            let prods = mul_pairs(&a, &a);
            let vals = var_div_round(&prods, cfg.scale_factor as i64);
            let shape = copy_dims(&layer.out_shapes[0]);
            match encode_output(cfg, &vals, shape) {
                Ok(t) => {
                    let mut outs: Vec<Tensor> = Vec::new();
                    outs.push(t);
                    Ok(outs)
                },
                Err(e) => Err(e),
            }
        },
        LayerType::Noop => {
            if inputs.len() != 1 {
                return Err(CircuitError::ShapeMismatch);
            }
            if !shapes_equal(&layer.out_shapes[0], &layer.inp_shapes[0]) {
                return Err(CircuitError::ShapeMismatch);
            }
            let a = match decode_tensor_vals(cfg, &inputs[0]) {
                Ok(v) => v,
                Err(e) => {
                    return Err(e);
                },
            };
            let shape = copy_dims(&layer.out_shapes[0]);
            match encode_output(cfg, &a, shape) {
                Ok(t) => {
                    let mut outs: Vec<Tensor> = Vec::new();
                    outs.push(t);
                    Ok(outs)
                },
                Err(e) => Err(e),
            }
        },
        LayerType::Reshape => {
            if inputs.len() != 1 {
                return Err(CircuitError::ShapeMismatch);
            }
            let n_in = inputs[0].data.len();
            proof {
                assert(vs[0].shape == inputs@[0].shape@);
                assert(shape_size(layer.inp_shapes@[0]@) == n_in as int);
            }
            let size_in = shape_num_elements(&layer.inp_shapes[0]);
            let size_out = shape_num_elements(&layer.out_shapes[0]);
            let sizes_match = match (size_in, size_out) {
                (Some(x), Some(y)) => x == y,
                _ => false,
            };
            if !sizes_match {
                return Err(CircuitError::ShapeMismatch);
            }
            let a = match decode_tensor_vals(cfg, &inputs[0]) {
                Ok(v) => v,
                Err(e) => {
                    return Err(e);
                },
            };
            let shape = copy_dims(&layer.out_shapes[0]);
            match encode_output(cfg, &a, shape) {
                Ok(t) => {
                    let mut outs: Vec<Tensor> = Vec::new();
                    outs.push(t);
                    Ok(outs)
                },
                Err(e) => Err(e),
            }
        },
        LayerType::Logistic => {
            if inputs.len() != 1 {
                return Err(CircuitError::ShapeMismatch);
            }
            if !shapes_equal(&layer.out_shapes[0], &layer.inp_shapes[0]) {
                return Err(CircuitError::ShapeMismatch);
            }
            let tbl = match &tables.logistic {
                Some(t) => t,
                None => {
                    return Err(
                        CircuitError::NoLookupStrategy {
                            gadget: crate::config::GadgetType::Logistic,
                        },
                    );
                },
            };
            let a = match decode_tensor_vals(cfg, &inputs[0]) {
                Ok(v) => v,
                Err(e) => {
                    return Err(e);
                },
            };
            let vals = match lookup_all(tbl, &a) {
                Ok(v) => v,
                Err(e) => {
                    proof {
                        let j = choose|i: int|
                            0 <= i < a@.len() && !(tbl.min_val <= #[trigger] a@[i] < tbl.max_val);
                        assert(a@.map_values(|x: i64| x as int)[j] == a@[j] as int);
                        assert(false);
                    }
                    return Err(e);
                },
            };
            let shape = copy_dims(&layer.out_shapes[0]);
            proof {
                assert(vals@.map_values(|x: i64| x as int).len() == vals@.len());
                assert(a@.map_values(|x: i64| x as int).len() == a@.len());
            }
            match encode_output(cfg, &vals, shape) {
                Ok(t) => {
                    let mut outs: Vec<Tensor> = Vec::new();
                    outs.push(t);
                    proof {
                        assert(spec_kernel_vals(*cfg, *tables, *layer, vs) == Some(
                            outs[0]@.vals,
                        ));
                    }
                    Ok(outs)
                },
                Err(e) => {
                    proof {
                        assert(false);
                    }
                    Err(e)
                },
            }
        },
        LayerType::Rsqrt => {
            if inputs.len() != 1 {
                return Err(CircuitError::ShapeMismatch);
            }
            if !shapes_equal(&layer.out_shapes[0], &layer.inp_shapes[0]) {
                return Err(CircuitError::ShapeMismatch);
            }
            let tbl = match &tables.rsqrt {
                Some(t) => t,
                None => {
                    return Err(
                        CircuitError::NoLookupStrategy { gadget: crate::config::GadgetType::Rsqrt },
                    );
                },
            };
            let a = match decode_tensor_vals(cfg, &inputs[0]) {
                Ok(v) => v,
                Err(e) => {
                    return Err(e);
                },
            };
            let vals = match lookup_all(tbl, &a) {
                Ok(v) => v,
                Err(e) => {
                    proof {
                        let j = choose|i: int|
                            0 <= i < a@.len() && !(tbl.min_val <= #[trigger] a@[i] < tbl.max_val);
                        assert(a@.map_values(|x: i64| x as int)[j] == a@[j] as int);
                        assert(false);
                    }
                    return Err(e);
                },
            };
            let shape = copy_dims(&layer.out_shapes[0]);
            proof {
                assert(vals@.map_values(|x: i64| x as int).len() == vals@.len());
                assert(a@.map_values(|x: i64| x as int).len() == a@.len());
            }
            match encode_output(cfg, &vals, shape) {
                Ok(t) => {
                    let mut outs: Vec<Tensor> = Vec::new();
                    outs.push(t);
                    proof {
                        assert(spec_kernel_vals(*cfg, *tables, *layer, vs) == Some(
                            outs[0]@.vals,
                        ));
                    }
                    Ok(outs)
                },
                Err(e) => {
                    proof {
                        assert(false);
                    }
                    Err(e)
                },
            }
        },
        _ => {
            // The arithmetic kernels of these layer kinds are external
            // collaborators of the circuit skeleton; only their shape and
            // gadget declarations are modelled here.
            Err(CircuitError::UnimplementedKernel)
        },
    }
}

/// Look every value of a vector up in one gadget table.
fn lookup_all(tbl: &LookupTable, a: &Vec<i64>) -> (r: Result<Vec<i64>, CircuitError>)
    requires
        tbl.wf(),
    ensures
        match r {
            Ok(v) => {
                &&& v@.map_values(|x: i64| x as int) == Seq::new(
                    a@.len() as nat,
                    |i: int| tbl.entry(a@[i] as int),
                )
                &&& forall|i: int| 0 <= i < a@.len() ==> tbl.min_val <= #[trigger] a@[i] < tbl.max_val
                &&& forall|i: int|
                    0 <= i < v@.len() ==> tbl.min_val <= #[trigger] v@[i] < tbl.max_val
            },
            Err(e) => e == CircuitError::ValueOutOfRange && exists|i: int|
                0 <= i < a@.len() && !(tbl.min_val <= #[trigger] a@[i] < tbl.max_val),
        },
{
    let mut v: Vec<i64> = Vec::new();
    let mut i: usize = 0;
    while i < a.len()
        invariant
            0 <= i <= a@.len(),
            tbl.wf(),
            v@.len() == i,
            forall|j: int| 0 <= j < i ==> #[trigger] v@[j] == tbl.entry(a@[j] as int),
            forall|j: int| 0 <= j < i ==> tbl.min_val <= #[trigger] a@[j] < tbl.max_val,
            forall|j: int| 0 <= j < i ==> tbl.min_val <= #[trigger] v@[j] < tbl.max_val,
        decreases a@.len() - i,
    {
        match lookup(tbl, a[i]) {
            Ok(y) => {
                v.push(y);
            },
            Err(e) => {
                return Err(e);
            },
        }
        i += 1;
    }
    proof {
        assert(v@.map_values(|x: i64| x as int) =~= Seq::new(
            a@.len() as nat,
            |i: int| tbl.entry(a@[i] as int),
        ));
    }
    Ok(v)
}

} // verus!
