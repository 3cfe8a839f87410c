use zkml::circuit::{
    KernelTables, LayerDescription, ModelCircuit, ModelDescription, TensorDescription,
};
use zkml::config::{match_layer, GadgetType, LayerType};
use zkml::error::CircuitError;
use zkml::felt::{decode, encode, Felt};
use zkml::gadgets::{
    adder, bias_div_round_relu6, dot_product, load_lookup_table, lookup, round_div,
};
use zkml::circuit::{cell_position, constant_row};
use zkml::verification::{parse_field_element, verify};

fn tensor_desc(idx: i64, shape: Vec<i64>, data: Vec<i64>) -> TensorDescription {
    TensorDescription { idx, shape, data }
}

fn add_1x1_description(k: i64) -> ModelDescription {
    ModelDescription {
        global_sf: 1,
        k,
        num_cols: 2,
        tensors: vec![
            tensor_desc(0, vec![1, 1], vec![3]),
            tensor_desc(1, vec![1, 1], vec![4]),
        ],
        layers: vec![LayerDescription {
            layer_type: String::from("Add"),
            params: vec![],
            inp_idxes: vec![0, 1],
            out_idxes: vec![2],
            inp_shapes: vec![vec![1, 1], vec![1, 1]],
            out_shapes: vec![vec![1, 1]],
            mask: vec![],
        }],
        out_idxes: vec![2],
    }
}

fn empty_kernels() -> KernelTables {
    KernelTables { rsqrt: vec![], exp: vec![], logistic: vec![] }
}

#[test]
fn quantization_round_trip() {
    let min_val: i64 = -32;
    let max_val: i64 = 22;
    for x in min_val..max_val {
        let f = encode(x);
        assert_eq!(decode(f, min_val, max_val), Ok(x));
    }
}

#[test]
fn quantization_rejects_out_of_range() {
    let f = encode(30);
    assert_eq!(decode(f, -32, 22), Err(CircuitError::ValueOutOfRange));
    let g = encode(-33);
    assert_eq!(decode(g, -32, 22), Err(CircuitError::ValueOutOfRange));
}

#[test]
fn encoding_of_negative_values() {
    let f = encode(-5);
    assert!(f.negative);
    assert_eq!(f.magnitude, 5);
    let z = encode(0);
    assert!(!z.negative);
    assert_eq!(z.magnitude, 0);
}

#[test]
fn lookup_table_coverage() {
    // every admissible input has an entry; the domain has 8 values here
    let outs: Vec<i64> = (0..8).map(|i| (i % 4) - 2).collect();
    let t = load_lookup_table(-4, 4, 100, outs).unwrap();
    for x in -4i64..4 {
        assert!(lookup(&t, x).is_ok());
    }
    assert_eq!(lookup(&t, 4), Err(CircuitError::ValueOutOfRange));
    assert_eq!(lookup(&t, -5), Err(CircuitError::ValueOutOfRange));
}

#[test]
fn lookup_table_must_cover_domain() {
    // 7 entries for a domain of 8 values is rejected at load time
    let outs: Vec<i64> = vec![0; 7];
    assert!(load_lookup_table(-4, 4, 100, outs).is_err());
    // an entry outside the domain is rejected too
    let bad: Vec<i64> = vec![9; 8];
    assert_eq!(
        load_lookup_table(-4, 4, 100, bad).err(),
        Some(CircuitError::ValueOutOfRange)
    );
    // a domain over the row budget is rejected
    let outs: Vec<i64> = vec![0; 8];
    assert_eq!(
        load_lookup_table(-4, 4, 7, outs).err(),
        Some(CircuitError::SizeMismatch)
    );
}

#[test]
fn dag_evaluation_determinism() {
    let desc = add_1x1_description(6);
    let (c1, cfg1) = ModelCircuit::generate_from_model(&desc).unwrap();
    let (c2, cfg2) = ModelCircuit::generate_from_model(&desc).unwrap();
    let o1 = c1.synthesize(&cfg1, empty_kernels()).unwrap();
    let o2 = c2.synthesize(&cfg2, empty_kernels()).unwrap();
    assert_eq!(o1.public_values, o2.public_values);
    assert_eq!(o1.outputs.len(), o2.outputs.len());
    for (a, b) in o1.outputs.iter().zip(o2.outputs.iter()) {
        assert_eq!(a.shape, b.shape);
        assert_eq!(a.data, b.data);
    }
}

#[test]
fn shape_propagation() {
    let desc = add_1x1_description(6);
    let (circuit, cfg) = ModelCircuit::generate_from_model(&desc).unwrap();
    let out = circuit.synthesize(&cfg, empty_kernels()).unwrap();
    assert_eq!(out.outputs.len(), 1);
    assert_eq!(out.outputs[0].shape, vec![1, 1]);
}

#[test]
fn shape_mismatch_is_fatal() {
    // the layer declares a 1x2 input, but the tensor at id 0 is 1x1
    let mut desc = add_1x1_description(6);
    desc.layers[0].inp_shapes[0] = vec![1, 2];
    let (circuit, cfg) = ModelCircuit::generate_from_model(&desc).unwrap();
    let r = circuit.synthesize(&cfg, empty_kernels());
    assert_eq!(r.err(), Some(CircuitError::ShapeMismatch));
}

#[test]
fn single_add_layer_public_output() {
    let desc = add_1x1_description(6);
    let (circuit, cfg) = ModelCircuit::generate_from_model(&desc).unwrap();
    let out = circuit.synthesize(&cfg, empty_kernels()).unwrap();
    assert_eq!(out.public_values, vec![encode(7)]);
    assert_ne!(out.public_values, vec![encode(8)]);
}

#[test]
fn constant_assignment() {
    let desc = add_1x1_description(6);
    let (circuit, cfg) = ModelCircuit::generate_from_model(&desc).unwrap();
    let out = circuit.synthesize(&cfg, empty_kernels()).unwrap();
    // rows 0-4 hold the encodings of 0, 1, sf, min_val, max_val - 1
    assert_eq!(out.fixed_column.len(), 5);
    assert_eq!(out.fixed_column[0], encode(0));
    assert_eq!(out.fixed_column[1], encode(1));
    assert_eq!(out.fixed_column[2], encode(1));
    assert_eq!(out.fixed_column[3], encode(-32));
    assert_eq!(out.fixed_column[4], encode(21));
}

#[test]
fn registry_sizing() {
    let desc = add_1x1_description(6);
    let (_, cfg) = ModelCircuit::generate_from_model(&desc).unwrap();
    assert_eq!(cfg.scale_factor, 1);
    assert_eq!(cfg.min_val, -32);
    assert_eq!(cfg.max_val, 22);
    assert_eq!(cfg.num_rows, 54);
    assert_eq!(cfg.num_cols, 2);
    assert_eq!(cfg.shift_min_val, -1024);
    assert_eq!(cfg.div_outp_min_val, -32);
    assert!(cfg.used_gadgets.contains(&GadgetType::AddPairs));
}

#[test]
fn unknown_layer_kind_is_fatal() {
    let mut desc = add_1x1_description(6);
    desc.layers[0].layer_type = String::from("Swizzle");
    assert_eq!(
        ModelCircuit::generate_from_model(&desc).err(),
        Some(CircuitError::UnknownLayerKind)
    );
}

#[test]
fn duplicate_tensor_id_is_fatal() {
    let mut desc = add_1x1_description(6);
    desc.tensors[1].idx = 0;
    assert_eq!(
        ModelCircuit::generate_from_model(&desc).err(),
        Some(CircuitError::DuplicateTensorId)
    );
}

#[test]
fn tensor_size_mismatch_is_fatal() {
    let mut desc = add_1x1_description(6);
    desc.tensors[0].data = vec![3, 3];
    assert_eq!(
        ModelCircuit::generate_from_model(&desc).err(),
        Some(CircuitError::SizeMismatch)
    );
}

#[test]
fn unsupported_row_parameter_is_fatal() {
    let desc = add_1x1_description(3);
    assert_eq!(
        ModelCircuit::generate_from_model(&desc).err(),
        Some(CircuitError::UnsupportedRowParameter)
    );
}

#[test]
fn match_layer_resolves_every_tag() {
    let cases = [
        ("Add", LayerType::Add),
        ("AveragePool2D", LayerType::AvgPool2D),
        ("BatchMatMul", LayerType::BatchMatMul),
        ("Conv2D", LayerType::Conv2D),
        ("FullyConnected", LayerType::FullyConnected),
        ("Logistic", LayerType::Logistic),
        ("MaskNegInf", LayerType::MaskNegInf),
        ("Mean", LayerType::Mean),
        ("Mul", LayerType::Mul),
        ("Noop", LayerType::Noop),
        ("Pad", LayerType::Pad),
        ("Reshape", LayerType::Reshape),
        ("Rsqrt", LayerType::Rsqrt),
        ("Softmax", LayerType::Softmax),
        ("Square", LayerType::Square),
        ("SquaredDifference", LayerType::SquaredDifference),
        ("Sub", LayerType::Sub),
        ("Transpose", LayerType::Transpose),
    ];
    for (tag, kind) in cases {
        assert_eq!(match_layer(&String::from(tag)), Ok(kind));
    }
    assert_eq!(
        match_layer(&String::from("Gelu")),
        Err(CircuitError::UnknownLayerKind)
    );
}

#[test]
fn rounding_division() {
    assert_eq!(round_div(7, 2), 4); // 3.5 rounds up
    assert_eq!(round_div(5, 2), 3);
    assert_eq!(round_div(6, 2), 3);
    assert_eq!(round_div(-7, 2), -3); // -3.5 rounds up toward -3
    assert_eq!(round_div(-8, 2), -4);
    assert_eq!(round_div(0, 7), 0);
    assert_eq!(round_div(100, 3), 33);
}

#[test]
fn bias_div_round_relu6_clips() {
    // round((20 + 0) / 2) = 10, clipped to 6 * sf = 6
    assert_eq!(bias_div_round_relu6(20, 0, 2, 1), 6);
    // a negative result clips to zero
    assert_eq!(bias_div_round_relu6(-20, 0, 2, 1), 0);
    // inside the range it is the rounded quotient
    assert_eq!(bias_div_round_relu6(7, 1, 2, 1), 4);
}

#[test]
fn adder_and_dot_product() {
    assert_eq!(adder(&vec![1, 2, 3, -4]), 2);
    assert_eq!(adder(&vec![]), 0);
    assert_eq!(dot_product(&vec![1, 2, 3], &vec![4, 5, 6]), 32);
    assert_eq!(dot_product(&vec![], &vec![]), 0);
}

#[test]
fn logistic_layer_uses_its_table() {
    let mut desc = add_1x1_description(6);
    desc.tensors = vec![tensor_desc(0, vec![1, 1], vec![5])];
    desc.layers = vec![LayerDescription {
        layer_type: String::from("Logistic"),
        params: vec![],
        inp_idxes: vec![0],
        out_idxes: vec![1],
        inp_shapes: vec![vec![1, 1]],
        out_shapes: vec![vec![1, 1]],
        mask: vec![],
    }];
    desc.out_idxes = vec![1];
    let (circuit, cfg) = ModelCircuit::generate_from_model(&desc).unwrap();
    // the domain is [-32, 22): the entry for input 5 sits at index 37
    let mut logistic: Vec<i64> = vec![1; 54];
    logistic[37] = 7;
    let kernels = KernelTables { rsqrt: vec![], exp: vec![], logistic };
    let out = circuit.synthesize(&cfg, kernels).unwrap();
    assert_eq!(out.public_values, vec![encode(7)]);
}

#[test]
fn missing_kernel_table_is_fatal() {
    let mut desc = add_1x1_description(6);
    desc.layers[0].layer_type = String::from("Logistic");
    desc.layers[0].inp_idxes = vec![0];
    desc.layers[0].inp_shapes = vec![vec![1, 1]];
    let (circuit, cfg) = ModelCircuit::generate_from_model(&desc).unwrap();
    // a logistic table of the wrong size does not cover the domain
    let kernels = KernelTables { rsqrt: vec![], exp: vec![], logistic: vec![0; 3] };
    assert!(circuit.synthesize(&cfg, kernels).is_err());
}

#[test]
fn no_lookup_strategy_is_fatal() {
    // a subtraction layer declares the sub-pairs gadget, which has no
    // lookup-table strategy at assignment time
    let mut desc = add_1x1_description(6);
    desc.layers[0].layer_type = String::from("Sub");
    let (circuit, cfg) = ModelCircuit::generate_from_model(&desc).unwrap();
    let r = circuit.synthesize(&cfg, empty_kernels());
    assert_eq!(
        r.err(),
        Some(CircuitError::NoLookupStrategy { gadget: GadgetType::SubPairs })
    );
}

#[test]
fn parse_field_element_accepts_decimal() {
    let f = parse_field_element(&String::from("123")).unwrap();
    assert_eq!(f, Felt { negative: false, magnitude: 123 });
    let m = parse_field_element(&String::from("9223372036854775807")).unwrap();
    assert_eq!(m.magnitude, 9223372036854775807);
}

#[test]
fn parse_field_element_rejects_malformed() {
    assert!(parse_field_element(&String::from("")).is_err());
    assert!(parse_field_element(&String::from("12a")).is_err());
    assert!(parse_field_element(&String::from("-3")).is_err());
    // 2^63 is the first unrepresentable magnitude
    assert!(parse_field_element(&String::from("9223372036854775808")).is_err());
    assert!(parse_field_element(&String::from("99999999999999999999")).is_err());
}

#[test]
fn verify_decodes_its_inputs() {
    let desc = add_1x1_description(24);
    let vk = String::from("0a0b");
    let proof = String::from("ff00");
    let publics = vec![String::from("7")];
    let job = verify(&vk, &proof, &publics, &desc).unwrap();
    // the hex wrapper must actually decode, not hand the text back
    assert_eq!(job.vk_bytes, vec![0x0a, 0x0b]);
    assert_eq!(job.proof_bytes, vec![0xff, 0x00]);
    assert_eq!(job.public_values, vec![Felt { negative: false, magnitude: 7 }]);
    assert_eq!(job.setup.k, 24);
    assert_eq!(job.setup.n, 1 << 24);
    assert_eq!(job.shape.num_advice_columns, 2);
    assert_eq!(
        job.shape.configured_gadgets[0],
        GadgetType::BiasDivRoundRelu6
    );
    assert_eq!(
        job.setup.s_g2_x_c0,
        "17109015867118572030745779324212191698736396241608212876854183006212164292849"
    );
}

#[test]
fn verify_rejects_bad_hex() {
    let desc = add_1x1_description(24);
    let publics: Vec<String> = vec![];
    let r = verify(
        &String::from("0g"),
        &String::from("00"),
        &publics,
        &desc,
    );
    assert_eq!(r.err(), Some(CircuitError::BadHexCharacter { index: 1 }));
    let r2 = verify(
        &String::from("abc"),
        &String::from("00"),
        &publics,
        &desc,
    );
    assert_eq!(r2.err(), Some(CircuitError::OddHexLength));
}

#[test]
fn verify_requires_the_fixed_row_parameter() {
    // the trusted setup is tied to row parameter 24
    let desc = add_1x1_description(12);
    let publics: Vec<String> = vec![];
    let r = verify(&String::from(""), &String::from(""), &publics, &desc);
    assert_eq!(r.err(), Some(CircuitError::UnsupportedRowParameter));
}

#[test]
fn hex_agrees_with_reference_crate() {
    // the library's decoding matches the hex crate it relies on
    let desc = add_1x1_description(24);
    let publics: Vec<String> = vec![];
    let text = String::from("deadBEEF");
    let job = verify(&text, &String::from(""), &publics, &desc).unwrap();
    assert_eq!(job.vk_bytes, hex::decode("deadBEEF").unwrap());
}

#[test]
fn cell_layout_is_row_major() {
    assert_eq!(cell_position(0, 3), (0, 0));
    assert_eq!(cell_position(2, 3), (0, 2));
    assert_eq!(cell_position(3, 3), (1, 0));
    assert_eq!(cell_position(7, 3), (2, 1));
}

#[test]
fn constant_rows_are_keyed_by_value() {
    let desc = add_1x1_description(6);
    let (_, cfg) = ModelCircuit::generate_from_model(&desc).unwrap();
    assert_eq!(constant_row(&cfg, 0), Some(0));
    // the scale factor is 1 here, so the scale-factor row wins over row 1
    assert_eq!(constant_row(&cfg, 1), Some(2));
    assert_eq!(constant_row(&cfg, -32), Some(3));
    assert_eq!(constant_row(&cfg, 22), Some(4));
    assert_eq!(constant_row(&cfg, 17), None);
}

fn one_dim_tensor(vals: &[i64]) -> zkml::tensor::Tensor {
    zkml::tensor::Tensor {
        shape: vec![vals.len()],
        data: vals.iter().map(|v| encode(*v)).collect(),
    }
}

fn elementwise_layer(kind: &str, arity: usize, len: i64) -> LayerDescription {
    LayerDescription {
        layer_type: String::from(kind),
        params: vec![],
        inp_idxes: (0..arity as i64).collect(),
        out_idxes: vec![arity as i64],
        inp_shapes: vec![vec![len]; arity],
        out_shapes: vec![vec![len]],
        mask: vec![],
    }
}

fn run_layer(kind: &str, inputs: &[&[i64]]) -> Result<Vec<i64>, CircuitError> {
    let desc = ModelDescription {
        global_sf: 2,
        k: 6,
        num_cols: 2,
        tensors: vec![],
        layers: vec![elementwise_layer(kind, inputs.len(), inputs[0].len() as i64)],
        out_idxes: vec![inputs.len() as i64],
    };
    let (circuit, cfg) = ModelCircuit::generate_from_model(&desc).unwrap();
    let tables = zkml::circuit::load_lookups(
        &cfg,
        KernelTables { rsqrt: vec![], exp: vec![], logistic: vec![] },
    )
    .unwrap_or(zkml::gadgets::LoadedTables { rsqrt: None, exp: None, logistic: None });
    let store: Vec<Option<zkml::tensor::Tensor>> =
        inputs.iter().map(|v| Some(one_dim_tensor(v))).collect();
    let (_, outs) = zkml::dag::dag_forward(&cfg, &tables, &circuit.dag_config, &store)?;
    Ok(outs[0]
        .data
        .iter()
        .map(|f| decode(*f, cfg.min_val, cfg.max_val).unwrap())
        .collect())
}

#[test]
fn elementwise_kernels() {
    // plain pairwise addition and subtraction
    assert_eq!(run_layer("Add", &[&[1, 2, -3], &[4, -5, 6]]), Ok(vec![5, -3, 3]));
    assert_eq!(run_layer("Sub", &[&[1, 2, -3], &[4, -5, 6]]), Ok(vec![-3, 7, -9]));
    // products rescale by the scale factor (2) with rounding
    assert_eq!(run_layer("Mul", &[&[3, -3], &[3, 3]]), Ok(vec![5, -4]));
    assert_eq!(run_layer("Square", &[&[3, 5]]), Ok(vec![5, 13]));
    assert_eq!(run_layer("SquaredDifference", &[&[5, 1], &[2, 4]]), Ok(vec![5, 5]));
    // identity and reshape keep the values
    assert_eq!(run_layer("Noop", &[&[7, -7]]), Ok(vec![7, -7]));
}

#[test]
fn kernels_reject_out_of_domain_values() {
    // 30 lies outside [-32, 22): rejected at assignment, not wrapped
    assert_eq!(
        run_layer("Add", &[&[30], &[1]]),
        Err(CircuitError::ValueOutOfRange)
    );
    // an in-range sum that leaves the domain is rejected too
    assert_eq!(
        run_layer("Add", &[&[21], &[21]]),
        Err(CircuitError::ValueOutOfRange)
    );
}

#[test]
fn unimplemented_kernel_is_reported() {
    let r = run_layer("MaskNegInf", &[&[1]]);
    assert_eq!(r, Err(CircuitError::UnimplementedKernel));
}
