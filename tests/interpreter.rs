use glenside::{interpret, Access, ComputeType, Environment, ExprNode, PadType, Tensor, Value};

/// Builds an expression node by node; each call returns the new node's position.
struct Builder {
    nodes: Vec<ExprNode>,
}

impl Builder {
    fn new() -> Builder {
        Builder { nodes: Vec::new() }
    }

    fn add(&mut self, n: ExprNode) -> u32 {
        self.nodes.push(n);
        (self.nodes.len() - 1) as u32
    }

    fn num(&mut self, u: usize) -> u32 {
        self.add(ExprNode::Usize(u))
    }

    fn sym(&mut self, s: &str) -> u32 {
        self.add(ExprNode::Symbol(s.to_string()))
    }

    fn access_tensor(&mut self, t: u32) -> u32 {
        self.add(ExprNode::AccessTensor(t))
    }

    fn access(&mut self, a: u32, d: usize) -> u32 {
        let d = self.num(d);
        self.add(ExprNode::Access(a, d))
    }

    fn access_of(&mut self, s: &str, d: usize) -> u32 {
        let t = self.sym(s);
        let a = self.access_tensor(t);
        self.access(a, d)
    }

    fn compute(&mut self, ct: ComputeType, a: u32) -> u32 {
        let c = self.add(ExprNode::ComputeType(ct));
        self.add(ExprNode::Compute(c, a))
    }

    fn shape(&mut self, dims: &[usize]) -> u32 {
        let ids: Vec<u32> = dims.iter().map(|d| self.num(*d)).collect();
        self.add(ExprNode::Shape(ids))
    }

    fn run(&self, env: &Environment) -> Value {
        interpret(&self.nodes, self.nodes.len() - 1, env).unwrap()
    }
}

fn tensor(shape: &[usize], data: &[i64]) -> Tensor {
    Tensor::new(shape.to_vec(), data.to_vec()).unwrap()
}

fn env_with(bindings: Vec<(&str, Tensor)>) -> Environment {
    let mut env = Environment::new();
    for (name, t) in bindings {
        env.insert(name.to_string(), t);
    }
    env
}

/// `[[[1,-2],[3,0]],[[-5,6],[0,8]],[[-9,10],[11,12]]]`
fn t3d() -> Tensor {
    tensor(&[3, 2, 2], &[1, -2, 3, 0, -5, 6, 0, 8, -9, 10, 11, 12])
}

/// `[[[1,2],[3,4]],[[5,6],[7,8]],[[9,10],[11,12]]]`
fn t3d_counting() -> Tensor {
    tensor(&[3, 2, 2], &[1, 2, 3, 4, 5, 6, 7, 8, 9, 10, 11, 12])
}

fn t2x2() -> Tensor {
    tensor(&[2, 2], &[1, 2, 3, 4])
}

fn expect_access(v: Value) -> Access {
    match v {
        Value::Access(a) => a,
        _ => panic!(),
    }
}

fn compute_on_t3d(ct: ComputeType, axis: usize) -> Access {
    let env = env_with(vec![("t", t3d())]);
    let mut b = Builder::new();
    let a = b.access_of("t", axis);
    b.compute(ct, a);
    expect_access(b.run(&env))
}

fn dot_product_on_counting(axis: usize) -> Access {
    let env = env_with(vec![("t", t3d_counting())]);
    let mut b = Builder::new();
    let a = b.access_of("t", axis);
    b.compute(ComputeType::DotProduct, a);
    expect_access(b.run(&env))
}

#[test]
fn compute_elementwise_add_0() {
    let a = compute_on_t3d(ComputeType::ElementwiseAdd, 0);
    assert_eq!(a.access_axis, 0);
    assert_eq!(a.tensor.shape, vec![2, 2]);
    assert_eq!(a.tensor.data, vec![1 + -5 + -9, -2 + 6 + 10, 3 + 0 + 11, 0 + 8 + 12]);
}

#[test]
fn compute_elementwise_mul_0() {
    let a = compute_on_t3d(ComputeType::ElementwiseMul, 0);
    assert_eq!(a.access_axis, 0);
    assert_eq!(a.tensor.shape, vec![2, 2]);
    assert_eq!(a.tensor.data, vec![1 * -5 * -9, -2 * 6 * 10, 3 * 0 * 11, 0 * 8 * 12]);
}

#[test]
fn compute_reduce_sum_0() {
    let a = compute_on_t3d(ComputeType::ReduceSum, 0);
    assert_eq!(a.access_axis, 0);
    assert_eq!(a.tensor.shape, Vec::<usize>::new());
    assert_eq!(a.tensor.data, vec![1 + -2 + 3 + 0 + -5 + 6 + 0 + 8 + -9 + 10 + 11 + 12]);
}

#[test]
fn compute_reduce_sum_1() {
    let a = compute_on_t3d(ComputeType::ReduceSum, 1);
    assert_eq!(a.access_axis, 1);
    assert_eq!(a.tensor.shape, vec![3]);
    assert_eq!(a.tensor.data, vec![1 + -2 + 3 + 0, -5 + 6 + 0 + 8, -9 + 10 + 11 + 12]);
}

#[test]
fn compute_reduce_sum_2() {
    let a = compute_on_t3d(ComputeType::ReduceSum, 2);
    assert_eq!(a.access_axis, 2);
    assert_eq!(a.tensor.shape, vec![3, 2]);
    assert_eq!(a.tensor.data, vec![1 + -2, 3 + 0, -5 + 6, 0 + 8, -9 + 10, 11 + 12]);
}

#[test]
fn compute_reduce_sum_3() {
    let a = compute_on_t3d(ComputeType::ReduceSum, 3);
    assert_eq!(a.access_axis, 3);
    assert_eq!(a.tensor.shape, vec![3, 2, 2]);
    assert_eq!(a.tensor.data, t3d().data);
}

#[test]
fn compute_relu_0() {
    let a = compute_on_t3d(ComputeType::ReLU, 0);
    assert_eq!(a.access_axis, 0);
    assert_eq!(a.tensor.shape, vec![3, 2, 2]);
    assert_eq!(a.tensor.data, vec![1, 0, 3, 0, 0, 6, 0, 8, 0, 10, 11, 12]);
}

#[test]
fn compute_relu_1() {
    let a = compute_on_t3d(ComputeType::ReLU, 2);
    assert_eq!(a.access_axis, 2);
    assert_eq!(a.tensor.shape, vec![3, 2, 2]);
    assert_eq!(a.tensor.data, vec![1, 0, 3, 0, 0, 6, 0, 8, 0, 10, 11, 12]);
}

#[test]
fn compute_dot_product_0() {
    let a = dot_product_on_counting(0);
    assert_eq!(a.tensor.shape, Vec::<usize>::new());
    assert_eq!(a.access_axis, 0);
    assert_eq!(a.tensor.data, vec![1 * 5 * 9 + 2 * 6 * 10 + 3 * 7 * 11 + 4 * 8 * 12]);
}

#[test]
fn compute_dot_product_1() {
    let a = dot_product_on_counting(1);
    assert_eq!(a.tensor.shape, vec![3]);
    assert_eq!(a.access_axis, 1);
    assert_eq!(a.tensor.data, vec![11, 5 * 7 + 8 * 6, 9 * 11 + 10 * 12]);
}

#[test]
fn compute_dot_product_2() {
    let a = dot_product_on_counting(2);
    assert_eq!(a.tensor.shape, vec![3, 2]);
    assert_eq!(a.access_axis, 2);
    assert_eq!(a.tensor.data, vec![1 * 2, 3 * 4, 5 * 6, 7 * 8, 9 * 10, 11 * 12]);
}

#[test]
fn access_cartesian_product() {
    let env = env_with(vec![
        ("t0", t3d_counting()),
        ("t1", tensor(&[2, 2, 2], &[13, 14, 15, 16, 17, 18, 19, 20])),
    ]);
    let mut b = Builder::new();
    let a0 = b.access_of("t0", 2);
    let a1 = b.access_of("t1", 2);
    b.add(ExprNode::AccessCartesianProduct(a0, a1));
    let a = expect_access(b.run(&env));
    assert_eq!(a.tensor.shape, vec![3, 2, 2, 2, 2, 2]);
    assert_eq!(a.access_axis, 4);
    // Row-major strides of the result: 32, 16, 8, 4, 2, 1.
    let at = |i: [usize; 4]| -> Vec<i64> {
        let base = i[0] * 32 + i[1] * 16 + i[2] * 8 + i[3] * 4;
        a.tensor.data[base..base + 4].to_vec()
    };
    assert_eq!(at([0, 0, 0, 0]), vec![1, 2, 13, 14]);
    assert_eq!(at([2, 0, 1, 0]), vec![9, 10, 17, 18]);
}

#[test]
fn access() {
    let env = env_with(vec![("t", t2x2())]);
    let mut b = Builder::new();
    b.access_of("t", 1);
    let a = expect_access(b.run(&env));
    assert_eq!(a.tensor.shape, vec![2, 2]);
    assert_eq!(a.tensor.data, vec![1, 2, 3, 4]);
    assert_eq!(a.access_axis, 1);
}

#[test]
fn access_windows() {
    let data: Vec<i64> = (1..=27).collect();
    let env = env_with(vec![("t", tensor(&[3, 3, 3], &data))]);
    let mut b = Builder::new();
    let a = b.access_of("t", 3);
    let f = b.shape(&[3, 2, 2]);
    let sx = b.num(1);
    let sy = b.num(1);
    b.add(ExprNode::AccessWindows(a, f, sx, sy));
    let a = expect_access(b.run(&env));
    assert_eq!(a.access_axis, 3);
    assert_eq!(a.tensor.shape, vec![1, 2, 2, 3, 2, 2]);
    // Each window holds 12 elements; window (0, ix, iy) starts at (ix * 2 + iy) * 12.
    assert_eq!(
        a.tensor.data[0..12].to_vec(),
        vec![1, 2, 4, 5, 10, 11, 13, 14, 19, 20, 22, 23]
    );
    assert_eq!(
        a.tensor.data[24..36].to_vec(),
        vec![4, 5, 7, 8, 13, 14, 16, 17, 22, 23, 25, 26]
    );
}

#[test]
fn shape() {
    let mut b = Builder::new();
    b.shape(&[1, 2, 3]);
    match b.run(&Environment::new()) {
        Value::Shape(s) => assert_eq!(s, vec![1, 2, 3]),
        _ => panic!(),
    }
}

fn slice_shape_of_t2x2(axis: usize) -> Vec<usize> {
    let env = env_with(vec![("t", t2x2())]);
    let mut b = Builder::new();
    let t = b.sym("t");
    let s = b.add(ExprNode::ShapeOf(t));
    let a = b.num(axis);
    b.add(ExprNode::SliceShape(s, a));
    match b.run(&env) {
        Value::Shape(s) => s,
        _ => panic!(),
    }
}

#[test]
fn slice_shape_0() {
    assert_eq!(slice_shape_of_t2x2(0), vec![2, 2]);
}

#[test]
fn slice_shape_1() {
    assert_eq!(slice_shape_of_t2x2(1), vec![2]);
}

#[test]
fn slice_shape_2() {
    assert_eq!(slice_shape_of_t2x2(2), Vec::<usize>::new());
}

#[test]
fn shape_of() {
    let env = env_with(vec![("t", t2x2())]);
    let mut b = Builder::new();
    let t = b.sym("t");
    b.add(ExprNode::ShapeOf(t));
    match b.run(&env) {
        Value::Shape(s) => assert_eq!(s, vec![2, 2]),
        _ => panic!(),
    }
}

#[test]
fn usize() {
    let mut b = Builder::new();
    b.num(23);
    match b.run(&Environment::new()) {
        Value::Usize(23) => (),
        _ => panic!(),
    }
}

#[test]
fn symbol() {
    let env = env_with(vec![("t", t2x2())]);
    let mut b = Builder::new();
    b.sym("t");
    match b.run(&env) {
        Value::Tensor(t) => {
            assert_eq!(t.shape, vec![2, 2]);
            assert_eq!(t.data, vec![1, 2, 3, 4]);
        }
        _ => panic!(),
    }
}

#[test]
fn access_tensor() {
    let env = env_with(vec![("t", t2x2())]);
    let mut b = Builder::new();
    let t = b.sym("t");
    b.access_tensor(t);
    let a = expect_access(b.run(&env));
    assert_eq!(a.tensor.shape, vec![2, 2]);
    assert_eq!(a.tensor.data, vec![1, 2, 3, 4]);
    assert_eq!(a.access_axis, 0);
}

#[test]
fn pad_type() {
    let mut b = Builder::new();
    b.add(ExprNode::PadType(PadType::ZeroPadding));
    match b.run(&Environment::new()) {
        Value::PadType(PadType::ZeroPadding) => (),
        _ => panic!(),
    }
}

#[test]
fn access_pad() {
    let env = env_with(vec![("t", t2x2())]);
    let mut b = Builder::new();
    let t = b.sym("t");
    let a = b.access_tensor(t);
    let p = b.add(ExprNode::PadType(PadType::ZeroPadding));
    let axis = b.num(0);
    let before = b.num(2);
    let after = b.num(4);
    b.add(ExprNode::AccessPad(a, p, axis, before, after));
    let a = expect_access(b.run(&env));
    assert_eq!(a.tensor.shape, vec![8, 2]);
    assert_eq!(
        a.tensor.data,
        vec![0, 0, 0, 0, 1, 2, 3, 4, 0, 0, 0, 0, 0, 0, 0, 0]
    );
    assert_eq!(a.access_axis, 0);
}

#[test]
fn compute_reduce_max_0() {
    let a = compute_on_t3d(ComputeType::ReduceMax, 0);
    assert_eq!(a.access_axis, 0);
    assert_eq!(a.tensor.shape, Vec::<usize>::new());
    assert_eq!(a.tensor.data, vec![12]);
}

#[test]
fn compute_reduce_max_1() {
    let a = compute_on_t3d(ComputeType::ReduceMax, 1);
    assert_eq!(a.access_axis, 1);
    assert_eq!(a.tensor.shape, vec![3]);
    assert_eq!(a.tensor.data, vec![3, 8, 12]);
}

#[test]
fn compute_reduce_max_2() {
    let a = compute_on_t3d(ComputeType::ReduceMax, 2);
    assert_eq!(a.access_axis, 2);
    assert_eq!(a.tensor.shape, vec![3, 2]);
    assert_eq!(a.tensor.data, vec![1, 3, 6, 8, 10, 12]);
}

#[test]
fn compute_reduce_max_3() {
    let a = compute_on_t3d(ComputeType::ReduceMax, 3);
    assert_eq!(a.access_axis, 3);
    assert_eq!(a.tensor.shape, vec![3, 2, 2]);
    assert_eq!(a.tensor.data, t3d().data);
}

fn squeeze_t1x2(access_axis: Option<usize>, squeeze_axis: usize) -> Access {
    let env = env_with(vec![("t", tensor(&[1, 2], &[1, 2]))]);
    let mut b = Builder::new();
    let t = b.sym("t");
    let mut a = b.access_tensor(t);
    if let Some(d) = access_axis {
        a = b.access(a, d);
    }
    let axis = b.num(squeeze_axis);
    b.add(ExprNode::AccessSqueeze(a, axis));
    expect_access(b.run(&env))
}

#[test]
fn access_squeeze_0() {
    let a = squeeze_t1x2(None, 0);
    assert_eq!(a.tensor.shape, vec![2]);
    assert_eq!(a.tensor.data, vec![1, 2]);
    assert_eq!(a.access_axis, 0);
}

#[test]
fn access_squeeze_1() {
    let a = squeeze_t1x2(Some(1), 0);
    assert_eq!(a.tensor.shape, vec![2]);
    assert_eq!(a.tensor.data, vec![1, 2]);
    assert_eq!(a.access_axis, 0);
}

#[test]
#[should_panic]
fn access_squeeze_panic() {
    let a = squeeze_t1x2(Some(1), 1);
    assert_eq!(a.tensor.data, vec![1, 2]);
    assert_eq!(a.access_axis, 0);
}

#[test]
fn max_pool2d() {
    let env = env_with(vec![(
        "t",
        tensor(
            &[3, 2, 4],
            &[
                1, -2, -4, 5, 3, 6, -8, 0, -5, 6, -8, -10, 0, 0, 0, 8, -9, -20, -15, 10, -1, 2, 11,
                12,
            ],
        ),
    )]);
    let mut b = Builder::new();
    let a = b.access_of("t", 3);
    let f = b.shape(&[1, 2, 2]);
    let sx = b.num(2);
    let sy = b.num(2);
    let w = b.add(ExprNode::AccessWindows(a, f, sx, sy));
    b.compute(ComputeType::ReduceMax, w);
    let a = expect_access(b.run(&env));
    assert_eq!(a.access_axis, 3);
    assert_eq!(a.tensor.shape, vec![3, 1, 2]);
    assert_eq!(a.tensor.data, vec![6, 5, 6, 8, 2, 12]);
}
