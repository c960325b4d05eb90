use glenside::{
    access, access_cartesian_product, access_pad, access_squeeze, access_tensor, access_windows,
    compute, interpret, slice_shape, Access, ComputeType, Environment, ExprNode, InterpError,
    PadType, Tensor, Value,
};

fn tensor(shape: &[usize], data: &[i64]) -> Tensor {
    Tensor::new(shape.to_vec(), data.to_vec()).unwrap()
}

fn t3d() -> Tensor {
    tensor(&[3, 2, 2], &[1, -2, 3, 0, -5, 6, 0, 8, -9, 10, 11, 12])
}

fn at_axis(t: Tensor, d: usize) -> Access {
    access(access_tensor(t), d).unwrap()
}

#[test]
fn tensor_new_rejects_mismatched_data() {
    assert!(Tensor::new(vec![2, 3], vec![1, 2, 3]).is_none());
    assert!(Tensor::new(vec![usize::MAX, 2], vec![]).is_none());
    let t = Tensor::new(vec![2, 0], vec![]).unwrap();
    assert_eq!(t.ndim(), 2);
    assert_eq!(t.shape(), &[2, 0]);
    assert_eq!(t.data(), &[] as &[i64]);
}

#[test]
fn access_tensor_keeps_tensor_with_axis_zero() {
    let a = access_tensor(t3d());
    assert_eq!(a.access_axis, 0);
    assert_eq!(a.tensor.shape, vec![3, 2, 2]);
    assert_eq!(a.tensor.data, t3d().data);
}

#[test]
fn access_sets_axis_up_to_ndim() {
    for d in 0..=3 {
        let a = at_axis(t3d(), d);
        assert_eq!(a.access_axis, d);
        assert_eq!(a.tensor.data, t3d().data);
    }
    assert_eq!(access(access_tensor(t3d()), 4).unwrap_err(), InterpError::AxisOutOfRange);
}

#[test]
fn squeeze_decrements_axis_only_before_it() {
    let t = tensor(&[2, 1, 3], &[1, 2, 3, 4, 5, 6]);
    let a = access_squeeze(at_axis(t.clone(), 2), 1).unwrap();
    assert_eq!(a.tensor.shape, vec![2, 3]);
    assert_eq!(a.access_axis, 1);
    let a = access_squeeze(at_axis(t.clone(), 1), 1).unwrap();
    assert_eq!(a.access_axis, 1);
    assert_eq!(a.tensor.data, vec![1, 2, 3, 4, 5, 6]);
}

#[test]
fn squeeze_errors() {
    let t = tensor(&[2, 1, 3], &[1, 2, 3, 4, 5, 6]);
    assert_eq!(access_squeeze(at_axis(t.clone(), 0), 0).unwrap_err(), InterpError::SqueezeNonUnit);
    assert_eq!(access_squeeze(at_axis(t, 0), 3).unwrap_err(), InterpError::AxisOutOfRange);
}

#[test]
fn pad_inner_axis_keeps_input_in_the_middle() {
    let t = tensor(&[2, 2], &[1, 2, 3, 4]);
    let a = access_pad(at_axis(t, 1), PadType::ZeroPadding, 1, 1, 2).unwrap();
    assert_eq!(a.tensor.shape, vec![2, 5]);
    assert_eq!(a.access_axis, 1);
    assert_eq!(a.tensor.data, vec![0, 1, 2, 0, 0, 0, 3, 4, 0, 0]);
}

#[test]
fn pad_errors() {
    let t = tensor(&[2, 2], &[1, 2, 3, 4]);
    assert_eq!(
        access_pad(at_axis(t.clone(), 0), PadType::ZeroPadding, 2, 1, 1).unwrap_err(),
        InterpError::AxisOutOfRange
    );
    assert_eq!(
        access_pad(at_axis(t, 0), PadType::ZeroPadding, 0, usize::MAX, 1).unwrap_err(),
        InterpError::SizeOverflow
    );
}

#[test]
fn reduce_sum_sums_trailing_dims() {
    let a = compute(ComputeType::ReduceSum, at_axis(t3d(), 1));
    assert_eq!(a.tensor.shape, vec![3]);
    assert_eq!(a.access_axis, 1);
    assert_eq!(a.tensor.data, vec![2, 9, 24]);
}

#[test]
fn reduce_max_of_empty_inner_is_the_minimum() {
    let t = tensor(&[2, 0], &[]);
    let a = compute(ComputeType::ReduceMax, at_axis(t, 1));
    assert_eq!(a.tensor.data, vec![i64::MIN, i64::MIN]);
}

#[test]
fn reduce_max_is_bounded_by_and_attained_in_row() {
    let a = compute(ComputeType::ReduceMax, at_axis(t3d(), 1));
    let data = t3d().data;
    for (o, m) in a.tensor.data.iter().enumerate() {
        let row = &data[o * 4..o * 4 + 4];
        assert!(row.iter().all(|x| x <= m));
        assert!(row.contains(m));
    }
}

#[test]
fn elementwise_on_empty_inner_is_identity() {
    let a = compute(ComputeType::ElementwiseAdd, at_axis(t3d(), 3));
    assert_eq!(a.tensor.shape, vec![3, 2, 2]);
    assert_eq!(a.tensor.data, t3d().data);
    let a = compute(ComputeType::DotProduct, at_axis(t3d(), 3));
    assert_eq!(a.tensor.data, t3d().data);
}

#[test]
fn arithmetic_wraps() {
    let t = tensor(&[2], &[i64::MAX, 1]);
    let a = compute(ComputeType::ReduceSum, at_axis(t, 0));
    assert_eq!(a.tensor.data, vec![i64::MIN]);
}

#[test]
fn cartesian_product_pairs_rows() {
    let a0 = at_axis(tensor(&[2, 2], &[1, 2, 3, 4]), 1);
    let a1 = at_axis(tensor(&[3, 2], &[5, 6, 7, 8, 9, 10]), 1);
    let r = access_cartesian_product(&a0, &a1).unwrap();
    assert_eq!(r.tensor.shape, vec![2, 3, 2, 2]);
    assert_eq!(r.access_axis, 2);
    assert_eq!(
        r.tensor.data,
        vec![
            1, 2, 5, 6, 1, 2, 7, 8, 1, 2, 9, 10, 3, 4, 5, 6, 3, 4, 7, 8, 3, 4, 9, 10
        ]
    );
}

#[test]
fn cartesian_product_inner_shape_mismatch() {
    let a0 = at_axis(tensor(&[2, 2], &[1, 2, 3, 4]), 1);
    let a1 = at_axis(tensor(&[2, 3], &[1, 2, 3, 4, 5, 6]), 1);
    assert_eq!(access_cartesian_product(&a0, &a1).unwrap_err(), InterpError::ShapeMismatch);
}

#[test]
fn windows_counts_use_ceiling() {
    // X = 5, Fx = 2, stride 2: ceil(4 / 2) = 2 windows; Y = 4, Fy = 1, stride 3: ceil(4 / 3) = 2.
    let data: Vec<i64> = (0..20).collect();
    let a = at_axis(tensor(&[1, 5, 4], &data), 3);
    let w = access_windows(&a, &vec![1, 2, 1], 2, 3).unwrap();
    assert_eq!(w.tensor.shape, vec![1, 2, 2, 1, 2, 1]);
    assert_eq!(w.access_axis, 3);
    assert_eq!(w.tensor.data, vec![0, 4, 3, 7, 8, 12, 11, 15]);
}

#[test]
fn windows_errors() {
    let data: Vec<i64> = (0..8).collect();
    let a = at_axis(tensor(&[2, 2, 2], &data), 3);
    assert_eq!(access_windows(&a, &vec![3, 1, 1], 1, 1).unwrap_err(), InterpError::WindowOverflow);
    assert_eq!(access_windows(&a, &vec![1, 1, 1], 0, 1).unwrap_err(), InterpError::ZeroStride);
    assert_eq!(access_windows(&a, &vec![1, 1], 1, 1).unwrap_err(), InterpError::ShapeMismatch);
    let b = at_axis(tensor(&[2, 2, 2], &data), 2);
    assert_eq!(access_windows(&b, &vec![1, 1, 1], 1, 1).unwrap_err(), InterpError::AxisOutOfRange);
    let c = at_axis(tensor(&[2, 4], &data), 2);
    assert_eq!(access_windows(&c, &vec![1, 1, 1], 1, 1).unwrap_err(), InterpError::ShapeMismatch);
}

#[test]
fn slice_shape_past_end_is_empty() {
    assert_eq!(slice_shape(&vec![4, 5, 6], 1), vec![5, 6]);
    assert_eq!(slice_shape(&vec![4, 5, 6], 7), Vec::<usize>::new());
}

fn run(nodes: &Vec<ExprNode>, env: &Environment) -> Result<Value, InterpError> {
    interpret(nodes, nodes.len() - 1, env)
}

#[test]
fn interpret_errors() {
    let mut env = Environment::new();
    env.insert("t".to_string(), t3d());
    let missing = vec![ExprNode::Symbol("u".to_string())];
    assert_eq!(run(&missing, &env).unwrap_err(), InterpError::MissingSymbol);
    let kind = vec![ExprNode::Usize(1), ExprNode::AccessTensor(0)];
    assert_eq!(run(&kind, &env).unwrap_err(), InterpError::KindMismatch);
    let forward = vec![ExprNode::AccessTensor(1), ExprNode::Symbol("t".to_string())];
    assert_eq!(interpret(&forward, 0, &env).unwrap_err(), InterpError::BadReference);
    assert_eq!(interpret(&forward, 5, &env).unwrap_err(), InterpError::BadReference);
    let reserved = vec![ExprNode::Symbol("t".to_string()), ExprNode::AccessFlatten(vec![0])];
    assert_eq!(run(&reserved, &env).unwrap_err(), InterpError::Unimplemented);
}

#[test]
fn later_binding_hides_earlier() {
    let mut env = Environment::new();
    env.insert("t".to_string(), tensor(&[1], &[1]));
    env.insert("t".to_string(), tensor(&[1], &[2]));
    assert_eq!(env.get(&"t".to_string()).unwrap().data, vec![2]);
    assert!(env.get(&"u".to_string()).is_none());
}

#[test]
fn repeated_interpretation_gives_equal_results() {
    let mut env = Environment::new();
    env.insert("t".to_string(), t3d());
    let nodes = vec![
        ExprNode::Symbol("t".to_string()),
        ExprNode::AccessTensor(0),
        ExprNode::Usize(1),
        ExprNode::Access(1, 2),
        ExprNode::ComputeType(ComputeType::DotProduct),
        ExprNode::Compute(4, 3),
    ];
    let first = match run(&nodes, &env).unwrap() {
        Value::Access(a) => a,
        _ => panic!(),
    };
    let second = match run(&nodes, &env).unwrap() {
        Value::Access(a) => a,
        _ => panic!(),
    };
    assert_eq!(first.tensor.data, second.tensor.data);
    assert_eq!(first.tensor.shape, second.tensor.shape);
    assert_eq!(first.access_axis, second.access_axis);
}

/// Conv2D written as dot-product over the Cartesian product of the filters
/// with the squeezed windows of the activations, against a direct convolution.
#[test]
fn conv2d_composition_matches_direct_convolution() {
    let (c, h, w) = (2usize, 4usize, 3usize);
    let (k, fh, fw) = (2usize, 2usize, 2usize);
    let act: Vec<i64> = (0..(c * h * w) as i64).map(|v| (v * 7) % 11 - 5).collect();
    let filt: Vec<i64> = (0..(k * c * fh * fw) as i64).map(|v| (v * 5) % 7 - 3).collect();
    let mut env = Environment::new();
    env.insert("activations".to_string(), tensor(&[c, h, w], &act));
    env.insert("filters".to_string(), tensor(&[k, c, fh, fw], &filt));
    let nodes = vec![
        ExprNode::Symbol("filters".to_string()),     // 0
        ExprNode::AccessTensor(0),                   // 1
        ExprNode::Usize(1),                          // 2
        ExprNode::Access(1, 2),                      // 3
        ExprNode::Symbol("activations".to_string()), // 4
        ExprNode::AccessTensor(4),                   // 5
        ExprNode::Usize(3),                          // 6
        ExprNode::Access(5, 6),                      // 7
        ExprNode::ShapeOf(0),                        // 8
        ExprNode::SliceShape(8, 2),                  // 9
        ExprNode::AccessWindows(7, 9, 2, 2),         // 10
        ExprNode::Usize(0),                          // 11
        ExprNode::AccessSqueeze(10, 11),             // 12
        ExprNode::AccessCartesianProduct(3, 12),     // 13
        ExprNode::ComputeType(ComputeType::DotProduct), // 14
        ExprNode::Compute(14, 13),                   // 15
    ];
    let r = match run(&nodes, &env).unwrap() {
        Value::Access(a) => a,
        _ => panic!(),
    };
    let (oh, ow) = (h - fh + 1, w - fw + 1);
    assert_eq!(r.tensor.shape, vec![k, oh, ow]);
    let mut expected = Vec::new();
    for ki in 0..k {
        for y in 0..oh {
            for x in 0..ow {
                let mut s = 0i64;
                for ci in 0..c {
                    for dy in 0..fh {
                        for dx in 0..fw {
                            s += filt[((ki * c + ci) * fh + dy) * fw + dx]
                                * act[(ci * h + y + dy) * w + x + dx];
                        }
                    }
                }
                expected.push(s);
            }
        }
    }
    assert_eq!(r.tensor.data, expected);
}
