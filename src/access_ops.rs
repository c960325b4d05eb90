use crate::index::{lemma_div_bound, lemma_index3, lemma_pos_factors};
use crate::tensor::{
    checked_span, lemma_prod_split3, lemma_remove_dim, lemma_span_bounds, lemma_span_part, prod,
    shape_prod, span, Tensor, TensorView,
};
use crate::value::{result_view, Access, AccessView, InterpError, PadType};
use vstd::prelude::*;

verus! {

/// `access-tensor`: the tensor with access axis 0.
pub open spec fn access_tensor_spec(t: TensorView) -> AccessView {
    AccessView { tensor: t, access_axis: 0 }
}

/// `access`: the same tensor with access axis `d`, where `d <= ndim`.
pub open spec fn access_spec(a: AccessView, d: nat) -> Result<AccessView, InterpError> {
    if d > a.tensor.ndim() {
        Err(InterpError::AxisOutOfRange)
    } else {
        Ok(AccessView { tensor: a.tensor, access_axis: d })
    }
}

/// `access-squeeze`: removes dimension `axis`, which must have size 1. Row-major
/// order is unaffected, so the elements stay as they are.
pub open spec fn squeeze_spec(a: AccessView, axis: nat) -> Result<AccessView, InterpError> {
    if axis >= a.tensor.ndim() {
        Err(InterpError::AxisOutOfRange)
    } else if a.tensor.shape[axis as int] != 1 {
        Err(InterpError::SqueezeNonUnit)
    } else {
        Ok(
            AccessView {
                tensor: TensorView {
                    shape: a.tensor.shape.remove(axis as int),
                    data: a.tensor.data,
                },
                access_axis: if axis < a.access_axis {
                    (a.access_axis - 1) as nat
                } else {
                    a.access_axis
                },
            },
        )
    }
}

/// The elements of a tensor viewed as `outer x n x inner`, padded along the
/// middle dimension with `before` zeros in front and `after` zeros behind.
pub open spec fn padded(
    data: Seq<i64>,
    outer: nat,
    n: nat,
    inner: nat,
    before: nat,
    after: nat,
) -> Seq<i64> {
    let m = before + n + after;
    Seq::new(
        outer * m * inner,
        |i: int|
            {
                let j = i % (inner as int);
                let k = (i / (inner as int)) % (m as int);
                let o = (i / (inner as int)) / (m as int);
                if before <= k < before + n {
                    data[(o * n + (k - before)) * inner + j]
                } else {
                    0i64
                }
            },
    )
}

/// The shape after padding dimension `axis` by `before + after`.
pub open spec fn padded_shape(shape: Seq<usize>, axis: nat, before: nat, after: nat) -> Seq<usize> {
    shape.update(axis as int, (shape[axis as int] + before + after) as usize)
}

/// `access-pad`: adds `before` and `after` cells around dimension `axis`,
/// filled as `pad` says; the access axis is kept.
pub open spec fn pad_spec(
    a: AccessView,
    pad: PadType,
    axis: nat,
    before: nat,
    after: nat,
) -> Result<AccessView, InterpError> {
    if axis >= a.tensor.ndim() {
        Err(InterpError::AxisOutOfRange)
    } else if a.tensor.shape[axis as int] + before + after > usize::MAX || span(
        padded_shape(a.tensor.shape, axis, before, after),
    ) > usize::MAX {
        Err(InterpError::SizeOverflow)
    } else {
        let shape = a.tensor.shape;
        match pad {
            PadType::ZeroPadding => Ok(
                AccessView {
                    tensor: TensorView {
                        shape: padded_shape(shape, axis, before, after),
                        data: padded(
                            a.tensor.data,
                            prod(shape.take(axis as int)),
                            shape[axis as int] as nat,
                            prod(shape.skip(axis + 1 as int)),
                            before,
                            after,
                        ),
                    },
                    access_axis: a.access_axis,
                },
            ),
        }
    }
}

/// `slice-shape`: the dimensions from `axis` on; empty where `axis` is past the end.
pub open spec fn slice_shape_spec(s: Seq<usize>, axis: nat) -> Seq<usize> {
    if axis >= s.len() {
        Seq::empty()
    } else {
        s.skip(axis as int)
    }
}

/// `access-tensor`: wraps a tensor as an access with access axis 0.
pub fn access_tensor(t: Tensor) -> (r: Access)
    ensures
        r@ == access_tensor_spec(t@),
{
    Access { tensor: t, access_axis: 0 }
}

/// `access`: sets the access axis of an access to `d`.
pub fn access(a: Access, d: usize) -> (r: Result<Access, InterpError>)
    ensures
        result_view(r) == access_spec(a@, d as nat),
{
    if d > a.tensor.shape.len() {
        Err(InterpError::AxisOutOfRange)
    } else {
        Ok(Access { tensor: a.tensor, access_axis: d })
    }
}

/// `access-squeeze`: removes dimension `axis` of size 1.
pub fn access_squeeze(a: Access, axis: usize) -> (r: Result<Access, InterpError>)
    requires
        a.wf(),
    ensures
        result_view(r) == squeeze_spec(a@, axis as nat),
        r is Ok ==> r->Ok_0.wf(),
{
    if axis >= a.tensor.shape.len() {
        return Err(InterpError::AxisOutOfRange);
    }
    if a.tensor.shape[axis] != 1 {
        return Err(InterpError::SqueezeNonUnit);
    }
    let ghost s = a.tensor.shape@;
    let mut shape = a.tensor.shape;
    shape.remove(axis);
    proof {
        lemma_remove_dim(s, axis as int);
        lemma_prod_split3(s, axis as int);
        let (p, q) = (prod(s.take(axis as int)) as int, prod(s.skip(axis + 1)) as int);
        assert(p * 1 * q == p * q) by (nonlinear_arith);
    }
    let access_axis = if axis < a.access_axis {
        a.access_axis - 1
    } else {
        a.access_axis
    };
    Ok(Access { tensor: Tensor { shape, data: a.tensor.data }, access_axis })
}

/// `access-pad`: pads dimension `axis` with `before` cells in front and
/// `after` cells behind.
pub fn access_pad(a: Access, pad: PadType, axis: usize, before: usize, after: usize) -> (r: Result<
    Access,
    InterpError,
>)
    requires
        a.wf(),
    ensures
        result_view(r) == pad_spec(a@, pad, axis as nat, before as nat, after as nat),
        r is Ok ==> r->Ok_0.wf(),
{
    let ndim = a.tensor.shape.len();
    if axis >= ndim {
        return Err(InterpError::AxisOutOfRange);
    }
    let n = a.tensor.shape[axis];
    let m = match n.checked_add(before) {
        Some(v) => match v.checked_add(after) {
            Some(w) => w,
            None => {
                return Err(InterpError::SizeOverflow);
            },
        },
        None => {
            return Err(InterpError::SizeOverflow);
        },
    };
    let mut shape = a.tensor.shape.clone();
    shape.set(axis, m);
    assert(shape@ == padded_shape(a.tensor.shape@, axis as nat, before as nat, after as nat));
    match checked_span(&shape) {
        None => {
            return Err(InterpError::SizeOverflow);
        },
        Some(_) => {},
    }
    assert(span(shape@) <= usize::MAX);
    let ghost s = a.tensor.shape@;
    proof {
        lemma_span_part(s, 0, axis as int);
        lemma_span_part(s, axis + 1, ndim as int);
        assert(s.subrange(0, axis as int) =~= s.take(axis as int));
        assert(s.subrange(axis + 1, ndim as int) =~= s.skip(axis + 1));
        lemma_prod_split3(s, axis as int);
        lemma_prod_split3(shape@, axis as int);
        assert(shape@.take(axis as int) =~= s.take(axis as int));
        assert(shape@.skip(axis + 1) =~= s.skip(axis + 1));
        lemma_span_bounds(shape@);
        lemma_span_bounds(s);
    }
    let outer = shape_prod(&a.tensor.shape, 0, axis);
    let inner = shape_prod(&a.tensor.shape, axis + 1, ndim);
    assert(outer == prod(shape@.take(axis as int)));
    assert(inner == prod(shape@.skip(axis + 1)));
    assert(prod(shape@) == outer * m * inner);
    assert(prod(s) == outer * n * inner);
    let total = shape_prod(&shape, 0, ndim);
    assert(shape@.subrange(0, ndim as int) =~= shape@);
    let ghost spec_data = padded(
        a.tensor.data@,
        outer as nat,
        n as nat,
        inner as nat,
        before as nat,
        after as nat,
    );
    let mut data: Vec<i64> = Vec::new();
    let mut i: usize = 0;
    while i < total
        invariant
            i <= total,
            total == outer * m * inner,
            m == n + before + after,
            a.tensor.data@.len() == outer * n * inner,
            outer * n * inner <= usize::MAX,
            spec_data.len() == total,
            spec_data == padded(
                a.tensor.data@,
                outer as nat,
                n as nat,
                inner as nat,
                before as nat,
                after as nat,
            ),
            data@ =~= spec_data.take(i as int),
        decreases total - i,
    {
        proof {
            lemma_pos_factors(i as int, outer as int, m as int, inner as int);
            lemma_div_bound(i as int, (outer * m) as int, inner as int);
        }
        let j = i % inner;
        let q = i / inner;
        proof {
            lemma_div_bound(q as int, outer as int, m as int);
        }
        let k = q % m;
        let o = q / m;
        let v: i64 = if before <= k && k < before + n {
            proof {
                lemma_index3(o as int, (k - before) as int, j as int, outer as int, n as int, inner as int);
            }
            a.tensor.data[(o * n + (k - before)) * inner + j]
        } else {
            0
        };
        data.push(v);
        i = i + 1;
    }
    assert(data@ =~= spec_data);
    assert(a.tensor.data@.len() == prod(s));
    Ok(Access { tensor: Tensor { shape, data }, access_axis: a.access_axis })
}

/// `shape-of`: the tensor's shape.
pub fn shape_of(t: &Tensor) -> (r: Vec<usize>)
    ensures
        r@ == t.shape@,
{
    t.shape.clone()
}

/// `slice-shape`: the dimensions of `s` from `axis` on.
pub fn slice_shape(s: &Vec<usize>, axis: usize) -> (r: Vec<usize>)
    ensures
        r@ == slice_shape_spec(s@, axis as nat),
{
    let mut r: Vec<usize> = Vec::new();
    if axis >= s.len() {
        return r;
    }
    let mut i: usize = axis;
    while i < s.len()
        invariant
            axis <= i <= s@.len(),
            r@ =~= s@.subrange(axis as int, i as int),
        decreases s.len() - i,
    {
        r.push(s[i]);
        i = i + 1;
    }
    r
}

} // verus!
