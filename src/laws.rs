use crate::access_ops::{access_spec, access_tensor_spec, pad_spec, squeeze_spec};
use crate::cartesian::{cartesian_spec, product_shape};
use crate::compute::{compute_spec, max_of, sum_of};
use crate::index::{lemma_index2, lemma_index3, lemma_split_offset};
use crate::interpreter::{eval, eval_child, eval_dims, lookup, EnvView, ExprNode};
use crate::tensor::{lemma_prod_split3, prod, TensorView};
use crate::value::{AccessView, ComputeType, InterpError, PadType, ValueView};
use crate::windows::{window_count, windows_spec};
use vstd::prelude::*;

verus! {

/// `access-tensor` keeps the tensor and sets the access axis to 0.
pub proof fn law_access_tensor(t: TensorView)
    ensures
        access_tensor_spec(t).tensor == t,
        access_tensor_spec(t).access_axis == 0,
{
}

/// `access` with an axis `d` in `[0, ndim]` keeps the tensor and sets the
/// access axis to `d`.
pub proof fn law_access_sets_axis(a: AccessView, d: nat)
    requires
        a.wf(),
        d <= a.tensor.ndim(),
    ensures
        access_spec(a, d) is Ok,
        access_spec(a, d)->Ok_0.tensor == a.tensor,
        access_spec(a, d)->Ok_0.access_axis == d,
{
}

/// `access-squeeze` on a dimension of size 1 removes exactly one dimension,
/// and decrements the access axis exactly when the removed dimension lies
/// before it.
pub proof fn law_squeeze(a: AccessView, axis: nat)
    requires
        a.wf(),
        axis < a.tensor.ndim(),
        a.tensor.shape[axis as int] == 1,
    ensures
        squeeze_spec(a, axis) is Ok,
        squeeze_spec(a, axis)->Ok_0.tensor.ndim() + 1 == a.tensor.ndim(),
        squeeze_spec(a, axis)->Ok_0.access_axis + 1 == a.access_axis <==> axis < a.access_axis,
        squeeze_spec(a, axis)->Ok_0.access_axis == a.access_axis <==> axis >= a.access_axis,
        squeeze_spec(a, axis)->Ok_0.tensor.data == a.tensor.data,
{
}

/// Zero padding grows dimension `axis` by `before + after`, keeps the other
/// dimensions, holds the input at offsets `[before, before + n)` along
/// `axis`, and zeros elsewhere.
pub proof fn law_zero_pad(a: AccessView, axis: nat, before: nat, after: nat)
    requires
        a.wf(),
        pad_spec(a, PadType::ZeroPadding, axis, before, after) is Ok,
    ensures
        ({
            let r = pad_spec(a, PadType::ZeroPadding, axis, before, after)->Ok_0;
            let s = a.tensor.shape;
            let n = s[axis as int] as int;
            let m = n + before + after;
            let outer = prod(s.take(axis as int)) as int;
            let inner = prod(s.skip(axis + 1int)) as int;
            &&& r.tensor.shape.len() == s.len()
            &&& r.tensor.shape[axis as int] == n + before + after
            &&& forall|d: int| 0 <= d < s.len() && d != axis ==> r.tensor.shape[d] == s[d]
            &&& r.access_axis == a.access_axis
            &&& forall|o: int, k: int, j: int|
                0 <= o < outer && 0 <= k < m && 0 <= j < inner ==> #[trigger] r.tensor.data[(o * m
                    + k) * inner + j] == if before <= k < before + n {
                    a.tensor.data[(o * n + k - before) * inner + j]
                } else {
                    0
                }
        }),
{
    let r = pad_spec(a, PadType::ZeroPadding, axis, before, after)->Ok_0;
    let s = a.tensor.shape;
    let n = s[axis as int] as int;
    let m = n + before + after;
    let outer = prod(s.take(axis as int)) as int;
    let inner = prod(s.skip(axis + 1int)) as int;
    assert forall|o: int, k: int, j: int|
        0 <= o < outer && 0 <= k < m && 0 <= j < inner implies #[trigger] r.tensor.data[(o * m + k)
        * inner + j] == if before <= k < before + n {
        a.tensor.data[(o * n + k - before) * inner + j]
    } else {
        0
    } by {
        let i = (o * m + k) * inner + j;
        lemma_index3(o, k, j, outer, m, inner);
        lemma_split_offset(o * m + k, j, inner);
        lemma_split_offset(o, k, m);
        assert((o * n + (k - before)) == o * n + k - before);
    }
}

/// Summing the inner dimensions of `Access(t, k)` sums the last `ndim - k`
/// dimensions for each index of the first `k`; the result has shape
/// `shape[..k]` and access axis `k`.
pub proof fn law_reduce_sum(t: TensorView, k: nat)
    requires
        t.wf(),
        k <= t.ndim(),
    ensures
        access_spec(access_tensor_spec(t), k) is Ok,
        ({
            let r = compute_spec(ComputeType::ReduceSum, access_spec(access_tensor_spec(t), k)->Ok_0);
            let m = prod(t.shape.skip(k as int)) as int;
            &&& r.tensor.shape == t.shape.take(k as int)
            &&& r.access_axis == k
            &&& r.tensor.data.len() == prod(t.shape.take(k as int))
            &&& forall|o: int|
                0 <= o < r.tensor.data.len() ==> #[trigger] r.tensor.data[o] == sum_of(
                    t.data.subrange(o * m, o * m + m),
                )
        }),
{
}

/// The maximum of a non-empty sequence is one of its elements and no
/// element exceeds it.
pub proof fn lemma_max_of(s: Seq<i64>)
    requires
        s.len() > 0,
    ensures
        exists|i: int| 0 <= i < s.len() && s[i] == max_of(s),
        forall|i: int| 0 <= i < s.len() ==> s[i] <= max_of(s),
    decreases s.len(),
{
    if s.len() == 1 {
        assert(s.drop_last().len() == 0);
        assert(max_of(s.drop_last()) == i64::MIN);
        assert(s.last() == s[0]);
        assert(s[0] == max_of(s));
    } else {
        let t = s.drop_last();
        lemma_max_of(t);
        let w = choose|i: int| 0 <= i < t.len() && t[i] == max_of(t);
        if s.last() > max_of(t) {
            assert(s[s.len() - 1] == max_of(s));
        } else {
            assert(s[w] == max_of(s));
        }
        assert forall|i: int| 0 <= i < s.len() implies s[i] <= max_of(s) by {
            if i < s.len() - 1 {
                assert(s[i] == t[i]);
            }
        }
    }
}

/// Where the inner dimensions hold at least one element, the maximum at
/// each outer index `o` is an element of that index's inner block of the
/// input, and no element of the block exceeds it.
pub proof fn law_reduce_max(a: AccessView, o: int)
    requires
        a.wf(),
        prod(a.inner_shape()) > 0,
        0 <= o < prod(a.outer_shape()),
    ensures
        ({
            let r = compute_spec(ComputeType::ReduceMax, a);
            let m = prod(a.inner_shape()) as int;
            &&& exists|j: int| 0 <= j < m && #[trigger] a.tensor.data[o * m + j] == r.tensor.data[o]
            &&& forall|j: int| 0 <= j < m ==> #[trigger] a.tensor.data[o * m + j] <= r.tensor.data[o]
        }),
{
    let r = compute_spec(ComputeType::ReduceMax, a);
    let m = prod(a.inner_shape()) as int;
    let outer = prod(a.outer_shape()) as int;
    crate::tensor::lemma_prod_split(a.tensor.shape, a.access_axis as int);
    let rw = a.tensor.data.subrange(o * m, o * m + m);
    lemma_index2(o, m - 1, outer, m);
    assert(r.tensor.data[o] == max_of(rw));
    lemma_max_of(rw);
    let w = choose|i: int| 0 <= i < rw.len() && rw[i] == max_of(rw);
    assert(a.tensor.data[o * m + w] == r.tensor.data[o]);
    assert forall|j: int| 0 <= j < m implies #[trigger] a.tensor.data[o * m + j] <= r.tensor.data[o] by {
        assert(rw[j] == a.tensor.data[o * m + j]);
    }
}

proof fn lemma_pair_offset(p: int, c: int, j: int, n: int, m: int)
    requires
        0 <= p < n,
        0 <= c < 2,
        0 <= j < m,
    ensures
        0 <= (p * 2 + c) * m + j < n * 2 * m,
        ((p * 2 + c) * m + j) % m == j,
        ((p * 2 + c) * m + j) / m == p * 2 + c,
        (p * 2 + c) % 2 == c,
        (p * 2 + c) / 2 == p,
{
    lemma_index3(p, c, j, n, 2, m);
    lemma_split_offset(p * 2 + c, j, m);
    lemma_split_offset(p, c, 2);
}

/// The Cartesian product has shape `O0 ++ O1 ++ [2] ++ I`, access axis
/// `|O0| + |O1|`, and at outer index `(p0, p1)` holds `a0`'s inner tensor at
/// `p0` followed by `a1`'s at `p1`.
pub proof fn law_cartesian_product(a0: AccessView, a1: AccessView)
    requires
        a0.wf(),
        a1.wf(),
        cartesian_spec(a0, a1) is Ok,
    ensures
        ({
            let r = cartesian_spec(a0, a1)->Ok_0;
            let n1 = prod(a1.outer_shape()) as int;
            let n0 = prod(a0.outer_shape()) as int;
            let m = prod(a0.inner_shape()) as int;
            &&& r.tensor.shape == a0.outer_shape() + a1.outer_shape() + seq![2usize]
                + a0.inner_shape()
            &&& r.access_axis == a0.access_axis + a1.access_axis
            &&& forall|p0: int, p1: int, j: int|
                0 <= p0 < n0 && 0 <= p1 < n1 && 0 <= j < m ==> {
                    &&& #[trigger] r.tensor.data[((p0 * n1 + p1) * 2) * m + j] == a0.tensor.data[p0
                        * m + j]
                    &&& r.tensor.data[((p0 * n1 + p1) * 2 + 1) * m + j] == a1.tensor.data[p1 * m
                        + j]
                }
        }),
{
    let r = cartesian_spec(a0, a1)->Ok_0;
    let n1 = prod(a1.outer_shape()) as int;
    let n0 = prod(a0.outer_shape()) as int;
    let m = prod(a0.inner_shape()) as int;
    assert forall|p0: int, p1: int, j: int| 0 <= p0 < n0 && 0 <= p1 < n1 && 0 <= j < m implies {
        &&& #[trigger] r.tensor.data[((p0 * n1 + p1) * 2) * m + j] == a0.tensor.data[p0 * m + j]
        &&& r.tensor.data[((p0 * n1 + p1) * 2 + 1) * m + j] == a1.tensor.data[p1 * m + j]
    } by {
        let p = p0 * n1 + p1;
        lemma_index2(p0, p1, n0, n1);
        lemma_split_offset(p0, p1, n1);
        lemma_pair_offset(p, 0, j, n0 * n1, m);
        lemma_pair_offset(p, 1, j, n0 * n1, m);
        assert((p * 2 + 0) == p * 2);
    }
}

/// The windows have shape `(Nc, Nx, Ny, Fc, Fx, Fy)` with each count
/// `ceil((size - filter + 1) / stride)`, and the window at `(ic, ix, iy)` is
/// the slice of the input that starts at `(ic, ix * sx, iy * sy)`.
pub proof fn law_windows(a: AccessView, f: Seq<usize>, sx: nat, sy: nat)
    requires
        a.wf(),
        windows_spec(a, f, sx, sy) is Ok,
    ensures
        ({
            let r = windows_spec(a, f, sx, sy)->Ok_0;
            let t = a.tensor.shape;
            let nc = window_count(t[0] as nat, f[0] as nat, 1);
            let nx = window_count(t[1] as nat, f[1] as nat, sx);
            let ny = window_count(t[2] as nat, f[2] as nat, sy);
            let (fc, fx, fy) = (f[0] as int, f[1] as int, f[2] as int);
            let (x, y) = (t[1] as int, t[2] as int);
            &&& r.tensor.shape == seq![
                nc as usize,
                nx as usize,
                ny as usize,
                f[0],
                f[1],
                f[2],
            ]
            &&& r.access_axis == 3
            &&& forall|ic: int, ix: int, iy: int, jc: int, jx: int, jy: int|
                0 <= ic < nc && 0 <= ix < nx && 0 <= iy < ny && 0 <= jc < fc && 0 <= jx < fx && 0
                    <= jy < fy ==> #[trigger] r.tensor.data[((((ic * nx + ix) * ny + iy) * fc + jc)
                    * fx + jx) * fy + jy] == a.tensor.data[((ic + jc) * x + ix * sx + jx) * y + iy
                    * sy + jy]
        }),
{
    let r = windows_spec(a, f, sx, sy)->Ok_0;
    let t = a.tensor.shape;
    let nc = window_count(t[0] as nat, f[0] as nat, 1);
    let nx = window_count(t[1] as nat, f[1] as nat, sx);
    let ny = window_count(t[2] as nat, f[2] as nat, sy);
    let (fc, fx, fy) = (f[0] as int, f[1] as int, f[2] as int);
    assert(r.tensor.data.len() == nc * nx * ny * fc * fx * fy) by {
        reveal_with_fuel(prod, 7);
    }
    assert forall|ic: int, ix: int, iy: int, jc: int, jx: int, jy: int|
        0 <= ic < nc && 0 <= ix < nx && 0 <= iy < ny && 0 <= jc < fc && 0 <= jx < fx && 0 <= jy
            < fy implies #[trigger] r.tensor.data[((((ic * nx + ix) * ny + iy) * fc + jc) * fx + jx)
        * fy + jy] == a.tensor.data[((ic + jc) * (t[1] as int) + ix * sx + jx) * (t[2] as int) + iy
        * sy + jy] by {
        let q1 = ic * nx + ix;
        let q2 = q1 * ny + iy;
        let q3 = q2 * fc + jc;
        let q4 = q3 * fx + jx;
        lemma_index2(ic, ix, nc, nx);
        lemma_index2(q1, iy, nc * nx, ny);
        lemma_index2(q2, jc, nc * nx * ny, fc);
        lemma_index2(q3, jx, nc * nx * ny * fc, fx);
        lemma_index2(q4, jy, nc * nx * ny * fc * fx, fy);
        lemma_split_offset(q4, jy, fy);
        lemma_split_offset(q3, jx, fx);
        lemma_split_offset(q2, jc, fc);
        lemma_split_offset(q1, iy, ny);
        lemma_split_offset(ic, ix, nx);
    }
}

/// Evaluation is a function of the expression, the index and the
/// environment: equal inputs give equal results.
pub proof fn law_eval_deterministic(
    e1: Seq<ExprNode>,
    e2: Seq<ExprNode>,
    index: int,
    env1: EnvView,
    env2: EnvView,
)
    requires
        e1 == e2,
        env1 == env2,
    ensures
        eval(e1, index, env1) == eval(e2, index, env2),
{
}

/// The dimensions of a `shape` node agree under two environments wherever
/// every earlier node evaluates alike under both.
proof fn lemma_dims_same_env(
    expr: Seq<ExprNode>,
    index: int,
    list: Seq<u32>,
    env1: EnvView,
    env2: EnvView,
)
    requires
        forall|c: int| c < index ==> #[trigger] eval(expr, c, env1) == eval(expr, c, env2),
    ensures
        eval_dims(expr, index, list, env1) == eval_dims(expr, index, list, env2),
    decreases list.len(),
{
    if list.len() > 0 {
        lemma_dims_same_env(expr, index, list.drop_last(), env1, env2);
        let c = list.last() as int;
        if c < index {
            assert(eval(expr, c, env1) == eval(expr, c, env2));
        }
        assert(eval_child(expr, index, list.last(), env1) == eval_child(
            expr,
            index,
            list.last(),
            env2,
        ));
    }
}

proof fn lemma_child_same_env(expr: Seq<ExprNode>, index: int, c: u32, env1: EnvView, env2: EnvView)
    requires
        forall|c: int| c < index ==> #[trigger] eval(expr, c, env1) == eval(expr, c, env2),
    ensures
        eval_child(expr, index, c, env1) == eval_child(expr, index, c, env2),
{
    if (c as int) < index {
        assert(eval(expr, c as int, env1) == eval(expr, c as int, env2));
    }
}

/// Evaluation reads the environment only by looking names up: two
/// environments that bind every name alike give every node the same result.
pub proof fn law_eval_depends_on_lookup(
    expr: Seq<ExprNode>,
    index: int,
    env1: EnvView,
    env2: EnvView,
)
    requires
        forall|name: Seq<char>| #[trigger] lookup(env1, name) == lookup(env2, name),
    ensures
        eval(expr, index, env1) == eval(expr, index, env2),
    decreases index,
{
    assert forall|c: int| c < index implies #[trigger] eval(expr, c, env1) == eval(
        expr,
        c,
        env2,
    ) by {
        if c >= 0 {
            law_eval_depends_on_lookup(expr, c, env1, env2);
        }
    }
    if 0 <= index < expr.len() {
        match expr[index] {
            ExprNode::Shape(list) => {
                lemma_dims_same_env(expr, index, list@, env1, env2);
            },
            ExprNode::Symbol(name) => {
                assert(lookup(env1, name@) == lookup(env2, name@));
            },
            ExprNode::ShapeOf(c0) => {
                lemma_child_same_env(expr, index, c0, env1, env2);
            },
            ExprNode::AccessTensor(c0) => {
                lemma_child_same_env(expr, index, c0, env1, env2);
            },
            ExprNode::SliceShape(c0, c1) => {
                lemma_child_same_env(expr, index, c0, env1, env2);
                lemma_child_same_env(expr, index, c1, env1, env2);
            },
            ExprNode::Access(c0, c1) => {
                lemma_child_same_env(expr, index, c0, env1, env2);
                lemma_child_same_env(expr, index, c1, env1, env2);
            },
            ExprNode::AccessSqueeze(c0, c1) => {
                lemma_child_same_env(expr, index, c0, env1, env2);
                lemma_child_same_env(expr, index, c1, env1, env2);
            },
            ExprNode::Compute(c0, c1) => {
                lemma_child_same_env(expr, index, c0, env1, env2);
                lemma_child_same_env(expr, index, c1, env1, env2);
            },
            ExprNode::AccessCartesianProduct(c0, c1) => {
                lemma_child_same_env(expr, index, c0, env1, env2);
                lemma_child_same_env(expr, index, c1, env1, env2);
            },
            ExprNode::AccessWindows(c0, c1, c2, c3) => {
                lemma_child_same_env(expr, index, c0, env1, env2);
                lemma_child_same_env(expr, index, c1, env1, env2);
                lemma_child_same_env(expr, index, c2, env1, env2);
                lemma_child_same_env(expr, index, c3, env1, env2);
            },
            ExprNode::AccessPad(c0, c1, c2, c3, c4) => {
                lemma_child_same_env(expr, index, c0, env1, env2);
                lemma_child_same_env(expr, index, c1, env1, env2);
                lemma_child_same_env(expr, index, c2, env1, env2);
                lemma_child_same_env(expr, index, c3, env1, env2);
                lemma_child_same_env(expr, index, c4, env1, env2);
            },
            _ => {},
        }
    }
}

} // verus!
