use crate::index::{lemma_div_bound, lemma_index2};
use crate::tensor::{
    checked_span, lemma_prod_concat, lemma_prod_single, lemma_prod_split, lemma_span_bounds,
    lemma_span_part, prod, shape_prefix, shape_prod, span, Tensor, TensorView,
};
use crate::value::{result_view, Access, AccessView, InterpError};
use itertools::Itertools;
use vstd::prelude::*;

verus! {

/// The shape of the Cartesian product of two accesses: the outer dimensions
/// of `a0`, those of `a1`, a pair dimension of size 2, and the common inner
/// dimensions.
pub open spec fn product_shape(a0: AccessView, a1: AccessView) -> Seq<usize> {
    a0.outer_shape() + a1.outer_shape() + seq![2usize] + a0.inner_shape()
}

/// The elements of the Cartesian product of `n0` blocks of `d0` with `n1`
/// blocks of `d1`, each block of `m` elements: for each pair `(p0, p1)` in
/// lexicographic order, block `p0` of `d0` followed by block `p1` of `d1`.
pub open spec fn paired(d0: Seq<i64>, d1: Seq<i64>, n0: nat, n1: nat, m: nat) -> Seq<i64> {
    Seq::new(
        n0 * n1 * 2 * m,
        |i: int|
            {
                let j = i % (m as int);
                let c = (i / (m as int)) % 2;
                let p = (i / (m as int)) / 2;
                if c == 0 {
                    d0[(p / (n1 as int)) * m + j]
                } else {
                    d1[(p % (n1 as int)) * m + j]
                }
            },
    )
}

/// `access-cartesian-product`: pairs every outer index of `a0` with every
/// outer index of `a1`; the inner shapes must agree.
pub open spec fn cartesian_spec(a0: AccessView, a1: AccessView) -> Result<AccessView, InterpError> {
    if a0.inner_shape() != a1.inner_shape() {
        Err(InterpError::ShapeMismatch)
    } else if span(product_shape(a0, a1)) > usize::MAX {
        Err(InterpError::SizeOverflow)
    } else {
        Ok(
            AccessView {
                tensor: TensorView {
                    shape: product_shape(a0, a1),
                    data: paired(
                        a0.tensor.data,
                        a1.tensor.data,
                        prod(a0.outer_shape()),
                        prod(a1.outer_shape()),
                        prod(a0.inner_shape()),
                    ),
                },
                access_axis: a0.access_axis + a1.access_axis,
            },
        )
    }
}

/// Relies on itertools' `cartesian_product`: the pairs of `0..n0` and
/// `0..n1` in lexicographic order, the first component outermost.
#[verifier::external_body]
fn index_pairs(n0: usize, n1: usize) -> (r: Vec<(usize, usize)>)
    requires
        n0 * n1 <= usize::MAX,
    ensures
        r@.len() == n0 * n1,
        forall|p: int|
            0 <= p < r@.len() ==> (#[trigger] r@[p]).0 as int == p / (n1 as int) && r@[p].1 as int
                == p % (n1 as int),
{
    (0..n0).cartesian_product(0..n1).collect()
}

/// Whether `s0[k0..]` equals `s1[k1..]`.
fn suffixes_equal(s0: &Vec<usize>, k0: usize, s1: &Vec<usize>, k1: usize) -> (r: bool)
    requires
        k0 <= s0@.len(),
        k1 <= s1@.len(),
    ensures
        r == (s0@.skip(k0 as int) == s1@.skip(k1 as int)),
{
    if s0.len() - k0 != s1.len() - k1 {
        assert(s0@.skip(k0 as int).len() != s1@.skip(k1 as int).len());
        return false;
    }
    let len1 = s1.len();
    let mut i: usize = 0;
    while i < s0.len() - k0
        invariant
            len1 == s1@.len(),
            k0 <= s0@.len(),
            k1 <= s1@.len(),
            s0@.len() - k0 == s1@.len() - k1,
            i <= s0@.len() - k0,
            forall|t: int| 0 <= t < i ==> #[trigger] s0@.skip(k0 as int)[t] == s1@.skip(k1 as int)[t],
        decreases s0.len() - k0 - i,
    {
        if s0[k0 + i] != s1[k1 + i] {
            assert(s0@.skip(k0 as int)[i as int] != s1@.skip(k1 as int)[i as int]);
            return false;
        }
        i = i + 1;
    }
    assert(s0@.skip(k0 as int) =~= s1@.skip(k1 as int));
    true
}

/// `access-cartesian-product`: for every pair of outer indices of `a0` and
/// `a1`, the two inner tensors stacked along a new dimension of size 2.
pub fn access_cartesian_product(a0: &Access, a1: &Access) -> (r: Result<Access, InterpError>)
    requires
        a0.wf(),
        a1.wf(),
    ensures
        result_view(r) == cartesian_spec(a0@, a1@),
        r is Ok ==> r->Ok_0.wf(),
{
    let k0 = a0.access_axis;
    let k1 = a1.access_axis;
    let nd0 = a0.tensor.shape.len();
    if !suffixes_equal(&a0.tensor.shape, k0, &a1.tensor.shape, k1) {
        return Err(InterpError::ShapeMismatch);
    }
    let mut shape = shape_prefix(&a0.tensor.shape, k0);
    let mut i: usize = 0;
    while i < k1
        invariant
            i <= k1 <= a1.tensor.shape@.len(),
            shape@ =~= a0@.outer_shape() + a1.tensor.shape@.take(i as int),
        decreases k1 - i,
    {
        shape.push(a1.tensor.shape[i]);
        i = i + 1;
    }
    assert(a1.tensor.shape@.take(k1 as int) =~= a1@.outer_shape());
    shape.push(2);
    let mut i: usize = k0;
    while i < nd0
        invariant
            k0 <= i <= nd0 == a0.tensor.shape@.len(),
            shape@ =~= a0@.outer_shape() + a1@.outer_shape() + seq![2usize]
                + a0.tensor.shape@.subrange(k0 as int, i as int),
        decreases nd0 - i,
    {
        shape.push(a0.tensor.shape[i]);
        i = i + 1;
    }
    assert(shape@ =~= product_shape(a0@, a1@));
    match checked_span(&shape) {
        None => {
            return Err(InterpError::SizeOverflow);
        },
        Some(_) => {},
    }
    let ghost o0 = a0@.outer_shape();
    let ghost o1 = a1@.outer_shape();
    let ghost inn = a0@.inner_shape();
    proof {
        lemma_prod_concat(o0, o1);
        lemma_prod_concat(o0 + o1, seq![2usize]);
        lemma_prod_concat(o0 + o1 + seq![2usize], inn);
        lemma_prod_single(2);
        lemma_prod_split(a0.tensor.shape@, k0 as int);
        lemma_prod_split(a1.tensor.shape@, k1 as int);
        lemma_span_bounds(shape@);
        lemma_span_bounds(o0);
        lemma_span_bounds(o1);
        lemma_span_bounds(inn);
        lemma_span_bounds(o0 + o1);
        lemma_span_bounds(a0.tensor.shape@);
        lemma_span_bounds(a1.tensor.shape@);
        lemma_span_part(a0.tensor.shape@, 0, k0 as int);
        lemma_span_part(a0.tensor.shape@, k0 as int, nd0 as int);
        lemma_span_part(a1.tensor.shape@, 0, k1 as int);
        assert(a0.tensor.shape@.subrange(0, k0 as int) =~= o0);
        assert(a0.tensor.shape@.subrange(k0 as int, nd0 as int) =~= inn);
        assert(a1.tensor.shape@.subrange(0, k1 as int) =~= o1);
        let (x, y, z) = (span(o0 + o1) as int, 2int, span(inn) as int);
        assert(x <= x * y * z) by (nonlinear_arith)
            requires
                1 <= x,
                1 <= z,
                y == 2,
        ;
        assert(prod(o0 + o1) <= span(o0 + o1));
    }
    let n0 = shape_prod(&a0.tensor.shape, 0, k0);
    let n1 = shape_prod(&a1.tensor.shape, 0, k1);
    let m = shape_prod(&a0.tensor.shape, k0, nd0);
    let total = shape_prod(&shape, 0, shape.len());
    assert(shape@.subrange(0, shape@.len() as int) =~= shape@);
    assert(total == n0 * n1 * 2 * m);
    let pairs = index_pairs(n0, n1);
    let ghost spec_data = paired(a0.tensor.data@, a1.tensor.data@, n0 as nat, n1 as nat, m as nat);
    let mut data: Vec<i64> = Vec::new();
    let mut i: usize = 0;
    while i < total
        invariant
            i <= total,
            total == n0 * n1 * 2 * m,
            a0.tensor.data@.len() == n0 * m,
            a1.tensor.data@.len() == n1 * m,
            pairs@.len() == n0 * n1,
            forall|p: int|
                0 <= p < pairs@.len() ==> (#[trigger] pairs@[p]).0 as int == p / (n1 as int)
                    && pairs@[p].1 as int == p % (n1 as int),
            n0 * m <= usize::MAX,
            n1 * m <= usize::MAX,
            spec_data == paired(a0.tensor.data@, a1.tensor.data@, n0 as nat, n1 as nat, m as nat),
            data@ =~= spec_data.take(i as int),
        decreases total - i,
    {
        proof {
            lemma_div_bound(i as int, (n0 * n1 * 2) as int, m as int);
            lemma_div_bound(i as int / m as int, (n0 * n1) as int, 2);
            lemma_div_bound(i as int / m as int / 2, n0 as int, n1 as int);
        }
        let j = i % m;
        let c = (i / m) % 2;
        let p = (i / m) / 2;
        let (p0, p1) = pairs[p];
        let v = if c == 0 {
            proof {
                lemma_index2(p0 as int, j as int, n0 as int, m as int);
            }
            a0.tensor.data[p0 * m + j]
        } else {
            proof {
                lemma_div_bound(p as int, n0 as int, n1 as int);
                lemma_index2(p1 as int, j as int, n1 as int, m as int);
            }
            a1.tensor.data[p1 * m + j]
        };
        data.push(v);
        i = i + 1;
    }
    assert(data@ =~= spec_data);
    Ok(
        Access {
            tensor: Tensor { shape, data },
            access_axis: k0 + k1,
        },
    )
}

} // verus!
