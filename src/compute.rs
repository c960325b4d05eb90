use crate::index::{lemma_div_bound, lemma_index3};
use crate::tensor::{
    lemma_prod_split, lemma_prod_split3, lemma_remove_dim, lemma_span_bounds, lemma_span_part,
    prod, shape_prefix, shape_prod, span, Tensor, TensorView,
};
use crate::value::{Access, AccessView, ComputeType};
use vstd::prelude::*;

verus! {

/// The wrapping sum of a sequence, added from the front.
pub open spec fn sum_of(s: Seq<i64>) -> i64
    decreases s.len(),
{
    if s.len() == 0 {
        0
    } else {
        sum_of(s.drop_last()).wrapping_add(s.last())
    }
}

/// The wrapping product of a sequence, multiplied from the front.
pub open spec fn product_of(s: Seq<i64>) -> i64
    decreases s.len(),
{
    if s.len() == 0 {
        1
    } else {
        product_of(s.drop_last()).wrapping_mul(s.last())
    }
}

/// The largest element of a sequence, seeded with `i64::MIN`.
pub open spec fn max_of(s: Seq<i64>) -> i64
    decreases s.len(),
{
    if s.len() == 0 {
        i64::MIN
    } else {
        let m = max_of(s.drop_last());
        if s.last() > m {
            s.last()
        } else {
            m
        }
    }
}

/// `max(x, 0)`.
pub open spec fn relu(x: i64) -> i64 {
    if x >= 0 {
        x
    } else {
        0
    }
}

/// Of a tensor viewed as `outer x n x m`, the `n` elements at outer index `o`
/// and inner index `j`.
pub open spec fn fiber(data: Seq<i64>, o: int, n: nat, m: nat, j: int) -> Seq<i64> {
    Seq::new(n, |r: int| data[(o * n + r) * m + j])
}

/// Of a tensor viewed as `outer x m`, the `m` elements at outer index `o`.
pub open spec fn row(data: Seq<i64>, o: int, m: nat) -> Seq<i64> {
    data.subrange(o * m, o * m + m)
}

/// The element count of the outer dimensions.
pub open spec fn outer_count(a: AccessView) -> nat {
    prod(a.outer_shape())
}

/// The element count of the inner dimensions.
pub open spec fn inner_count(a: AccessView) -> nat {
    prod(a.inner_shape())
}

/// The element count of the inner dimensions after the first one.
pub open spec fn inner_rest_count(a: AccessView) -> nat {
    prod(a.tensor.shape.skip(a.access_axis + 1int))
}

/// The first inner dimension.
pub open spec fn first_inner(a: AccessView) -> nat {
    a.tensor.shape[a.access_axis as int] as nat
}

/// Folds the first inner dimension away, elementwise across the others, by
/// a wrapping sum or product.
pub open spec fn fold_first_inner(a: AccessView, mul: bool) -> AccessView {
    if a.access_axis == a.tensor.ndim() {
        a
    } else {
        let n = first_inner(a);
        let m = inner_rest_count(a);
        AccessView {
            tensor: TensorView {
                shape: a.outer_shape() + a.tensor.shape.skip(a.access_axis + 1int),
                data: Seq::new(
                    outer_count(a) * m,
                    |i: int|
                        {
                            let col = fiber(a.tensor.data, i / (m as int), n, m, i % (m as int));
                            if mul {
                                product_of(col)
                            } else {
                                sum_of(col)
                            }
                        },
                ),
            },
            access_axis: a.access_axis,
        }
    }
}

/// For each outer index, views the inner dimensions as a matrix with
/// `first_inner` rows, multiplies the rows elementwise, and sums the result.
pub open spec fn dot_product_spec(a: AccessView) -> AccessView {
    if a.access_axis == a.tensor.ndim() {
        a
    } else {
        let n = first_inner(a);
        let m = inner_rest_count(a);
        AccessView {
            tensor: TensorView {
                shape: a.outer_shape(),
                data: Seq::new(
                    outer_count(a),
                    |o: int| sum_of(Seq::new(m, |j: int| product_of(fiber(a.tensor.data, o, n, m, j)))),
                ),
            },
            access_axis: a.access_axis,
        }
    }
}

/// Reduces all inner dimensions of each outer index to one element, by a
/// wrapping sum or by the maximum.
pub open spec fn reduce_spec(a: AccessView, max: bool) -> AccessView {
    let m = inner_count(a);
    AccessView {
        tensor: TensorView {
            shape: a.outer_shape(),
            data: Seq::new(
                outer_count(a),
                |o: int|
                    if max {
                        max_of(row(a.tensor.data, o, m))
                    } else {
                        sum_of(row(a.tensor.data, o, m))
                    },
            ),
        },
        access_axis: a.access_axis,
    }
}

/// `compute`: what each compute type makes of an access.
pub open spec fn compute_spec(ct: ComputeType, a: AccessView) -> AccessView {
    match ct {
        ComputeType::ElementwiseMul => fold_first_inner(a, true),
        ComputeType::ElementwiseAdd => fold_first_inner(a, false),
        ComputeType::DotProduct => dot_product_spec(a),
        ComputeType::ReLU => AccessView {
            tensor: TensorView {
                shape: a.tensor.shape,
                data: a.tensor.data.map_values(|x: i64| relu(x)),
            },
            access_axis: a.access_axis,
        },
        ComputeType::ReduceSum => reduce_spec(a, false),
        ComputeType::ReduceMax => reduce_spec(a, true),
    }
}

/// The wrapping sum or product of one column of a tensor viewed as `outer x n x m`.
fn fold_column(data: &Vec<i64>, o: usize, outer: usize, n: usize, m: usize, j: usize, mul: bool) -> (r: i64)
    requires
        data@.len() == outer * n * m,
        o < outer,
        j < m,
    ensures
        r == if mul {
            product_of(fiber(data@, o as int, n as nat, m as nat, j as int))
        } else {
            sum_of(fiber(data@, o as int, n as nat, m as nat, j as int))
        },
{
    let ghost col = fiber(data@, o as int, n as nat, m as nat, j as int);
    let mut acc: i64 = if mul {
        1
    } else {
        0
    };
    let len = data.len();
    let mut r: usize = 0;
    while r < n
        invariant
            r <= n,
            len == data@.len(),
            data@.len() == outer * n * m,
            o < outer,
            j < m,
            col == fiber(data@, o as int, n as nat, m as nat, j as int),
            acc == if mul {
                product_of(col.take(r as int))
            } else {
                sum_of(col.take(r as int))
            },
        decreases n - r,
    {
        proof {
            lemma_index3(o as int, r as int, j as int, outer as int, n as int, m as int);
            assert(col.take(r + 1).drop_last() =~= col.take(r as int));
        }
        let x = data[(o * n + r) * m + j];
        if mul {
            acc = acc.wrapping_mul(x);
        } else {
            acc = acc.wrapping_add(x);
        }
        r = r + 1;
    }
    assert(col.take(n as int) =~= col);
    acc
}

/// The wrapping sum, or the maximum, of `data[o * m .. o * m + m]`.
fn reduce_row(data: &Vec<i64>, o: usize, outer: usize, m: usize, max: bool) -> (r: i64)
    requires
        data@.len() == outer * m,
        o < outer,
    ensures
        r == if max {
            max_of(row(data@, o as int, m as nat))
        } else {
            sum_of(row(data@, o as int, m as nat))
        },
{
    let ghost rw = row(data@, o as int, m as nat);
    let len = data.len();
    proof {
        assert(o * m + m <= outer * m) by (nonlinear_arith)
            requires
                o < outer,
        ;
    }
    let base = o * m;
    let mut acc: i64 = if max {
        i64::MIN
    } else {
        0
    };
    let mut j: usize = 0;
    while j < m
        invariant
            j <= m,
            base == o * m,
            base + m <= data@.len(),
            len == data@.len(),
            rw == data@.subrange(base as int, base + m),
            acc == if max {
                max_of(rw.take(j as int))
            } else {
                sum_of(rw.take(j as int))
            },
        decreases m - j,
    {
        assert(rw.take(j + 1).drop_last() =~= rw.take(j as int));
        let x = data[base + j];
        if max {
            if x > acc {
                acc = x;
            }
        } else {
            acc = acc.wrapping_add(x);
        }
        j = j + 1;
    }
    assert(rw.take(m as int) =~= rw);
    acc
}

/// `max(x, 0)` on each element.
fn relu_all(a: Access) -> (r: Access)
    ensures
        r@ == compute_spec(ComputeType::ReLU, a@),
{
    let mut data: Vec<i64> = Vec::new();
    let mut i: usize = 0;
    while i < a.tensor.data.len()
        invariant
            i <= a.tensor.data@.len(),
            data@ =~= a.tensor.data@.take(i as int).map_values(|x: i64| relu(x)),
        decreases a.tensor.data.len() - i,
    {
        let x = a.tensor.data[i];
        data.push(
            if x >= 0 {
                x
            } else {
                0
            },
        );
        i = i + 1;
    }
    assert(a.tensor.data@.take(i as int) =~= a.tensor.data@);
    Access { tensor: Tensor { shape: a.tensor.shape, data }, access_axis: a.access_axis }
}

/// Reduces the inner dimensions of each outer index by a sum or the maximum.
fn reduce(a: Access, max: bool) -> (r: Access)
    requires
        a.wf(),
    ensures
        r@ == reduce_spec(a@, max),
        r.wf(),
{
    let k = a.access_axis;
    let ndim = a.tensor.shape.len();
    let ghost s = a.tensor.shape@;
    proof {
        lemma_span_part(s, 0, k as int);
        lemma_span_part(s, k as int, ndim as int);
        assert(s.subrange(0, k as int) =~= s.take(k as int));
        assert(s.subrange(k as int, ndim as int) =~= s.skip(k as int));
        lemma_prod_split(s, k as int);
        lemma_span_bounds(s.take(k as int));
    }
    let outer = shape_prod(&a.tensor.shape, 0, k);
    let m = shape_prod(&a.tensor.shape, k, ndim);
    let shape = shape_prefix(&a.tensor.shape, k);
    let ghost spec_data = reduce_spec(a@, max).tensor.data;
    let mut data: Vec<i64> = Vec::new();
    let mut o: usize = 0;
    while o < outer
        invariant
            o <= outer,
            a.tensor.data@.len() == outer * m,
            outer == outer_count(a@),
            m == inner_count(a@),
            spec_data == reduce_spec(a@, max).tensor.data,
            spec_data.len() == outer,
            data@ =~= spec_data.take(o as int),
        decreases outer - o,
    {
        let v = reduce_row(&a.tensor.data, o, outer, m, max);
        data.push(v);
        o = o + 1;
    }
    assert(data@ =~= spec_data);
    Access { tensor: Tensor { shape, data }, access_axis: k }
}

/// Folds the first inner dimension away by a wrapping sum or product.
fn fold_first(a: Access, mul: bool) -> (r: Access)
    requires
        a.wf(),
    ensures
        r@ == fold_first_inner(a@, mul),
        r.wf(),
{
    let k = a.access_axis;
    let ndim = a.tensor.shape.len();
    if k == ndim {
        return a;
    }
    let ghost s = a.tensor.shape@;
    proof {
        lemma_span_part(s, 0, k as int);
        lemma_span_part(s, k + 1, ndim as int);
        assert(s.subrange(0, k as int) =~= s.take(k as int));
        assert(s.subrange(k + 1, ndim as int) =~= s.skip(k + 1));
        lemma_prod_split3(s, k as int);
        lemma_remove_dim(s, k as int);
        lemma_span_bounds(s.remove(k as int));
    }
    let outer = shape_prod(&a.tensor.shape, 0, k);
    let n = a.tensor.shape[k];
    let m = shape_prod(&a.tensor.shape, k + 1, ndim);
    let mut shape = a.tensor.shape.clone();
    shape.remove(k);
    let total = outer * m;
    let ghost spec_data = fold_first_inner(a@, mul).tensor.data;
    let mut data: Vec<i64> = Vec::new();
    let mut i: usize = 0;
    while i < total
        invariant
            i <= total,
            total == outer * m,
            a.tensor.data@.len() == outer * n * m,
            outer == outer_count(a@),
            n == first_inner(a@),
            m == inner_rest_count(a@),
            a.access_axis < a.tensor.shape@.len(),
            spec_data == fold_first_inner(a@, mul).tensor.data,
            spec_data.len() == total,
            data@ =~= spec_data.take(i as int),
        decreases total - i,
    {
        proof {
            lemma_div_bound(i as int, outer as int, m as int);
        }
        let v = fold_column(&a.tensor.data, i / m, outer, n, m, i % m, mul);
        data.push(v);
        i = i + 1;
    }
    assert(data@ =~= spec_data);
    Access { tensor: Tensor { shape, data }, access_axis: k }
}

/// Multiplies the rows of each outer index's inner matrix elementwise and
/// sums the result.
fn dot_product(a: Access) -> (r: Access)
    requires
        a.wf(),
    ensures
        r@ == dot_product_spec(a@),
        r.wf(),
{
    let k = a.access_axis;
    let ndim = a.tensor.shape.len();
    if k == ndim {
        return a;
    }
    let ghost s = a.tensor.shape@;
    proof {
        lemma_span_part(s, 0, k as int);
        lemma_span_part(s, k + 1, ndim as int);
        assert(s.subrange(0, k as int) =~= s.take(k as int));
        assert(s.subrange(k + 1, ndim as int) =~= s.skip(k + 1));
        lemma_prod_split3(s, k as int);
        lemma_span_bounds(s.take(k as int));
    }
    let outer = shape_prod(&a.tensor.shape, 0, k);
    let n = a.tensor.shape[k];
    let m = shape_prod(&a.tensor.shape, k + 1, ndim);
    let shape = shape_prefix(&a.tensor.shape, k);
    let ghost spec_data = dot_product_spec(a@).tensor.data;
    let mut data: Vec<i64> = Vec::new();
    let mut o: usize = 0;
    while o < outer
        invariant
            o <= outer,
            a.tensor.data@.len() == outer * n * m,
            outer == outer_count(a@),
            n == first_inner(a@),
            m == inner_rest_count(a@),
            a.access_axis < a.tensor.shape@.len(),
            spec_data == dot_product_spec(a@).tensor.data,
            spec_data.len() == outer,
            data@ =~= spec_data.take(o as int),
        decreases outer - o,
    {
        let ghost terms = Seq::new(
            m as nat,
            |j: int| product_of(fiber(a.tensor.data@, o as int, n as nat, m as nat, j)),
        );
        let mut acc: i64 = 0;
        let mut j: usize = 0;
        while j < m
            invariant
                j <= m,
                o < outer,
                a.tensor.data@.len() == outer * n * m,
                terms == Seq::new(
                    m as nat,
                    |j: int| product_of(fiber(a.tensor.data@, o as int, n as nat, m as nat, j)),
                ),
                acc == sum_of(terms.take(j as int)),
            decreases m - j,
        {
            assert(terms.take(j + 1).drop_last() =~= terms.take(j as int));
            let p = fold_column(&a.tensor.data, o, outer, n, m, j, true);
            acc = acc.wrapping_add(p);
            j = j + 1;
        }
        assert(terms.take(m as int) =~= terms);
        data.push(acc);
        o = o + 1;
    }
    assert(data@ =~= spec_data);
    Access { tensor: Tensor { shape, data }, access_axis: k }
}

/// `compute`: reduces or maps the inner dimensions of an access as `ct` says.
pub fn compute(ct: ComputeType, a: Access) -> (r: Access)
    requires
        a.wf(),
    ensures
        r@ == compute_spec(ct, a@),
        r.wf(),
{
    match ct {
        ComputeType::ElementwiseMul => fold_first(a, true),
        ComputeType::ElementwiseAdd => fold_first(a, false),
        ComputeType::DotProduct => dot_product(a),
        ComputeType::ReLU => relu_all(a),
        ComputeType::ReduceSum => reduce(a, false),
        ComputeType::ReduceMax => reduce(a, true),
    }
}

} // verus!
