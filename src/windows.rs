use crate::index::{lemma_div_bound, lemma_index3};
use crate::tensor::{checked_span, lemma_span_bounds, prod, shape_prod, span, Tensor, TensorView};
use crate::value::{result_view, Access, AccessView, InterpError};
use vstd::arithmetic::div_mod::{lemma_fundamental_div_mod, lemma_fundamental_div_mod_converse};
use vstd::prelude::*;

verus! {

/// The number of windows of size `filter` that fit in `size` at stride
/// `stride`: `ceil((size - filter + 1) / stride)`.
pub open spec fn window_count(size: nat, filter: nat, stride: nat) -> int {
    ((size - filter + 1) + stride - 1) / (stride as int)
}

/// The shape of the windows of a `(C, X, Y)` tensor: the window counts along
/// each dimension (channel stride 1), then the filter shape.
pub open spec fn windows_shape(t: Seq<usize>, f: Seq<usize>, sx: nat, sy: nat) -> Seq<usize> {
    seq![
        window_count(t[0] as nat, f[0] as nat, 1) as usize,
        window_count(t[1] as nat, f[1] as nat, sx) as usize,
        window_count(t[2] as nat, f[2] as nat, sy) as usize,
        f[0],
        f[1],
        f[2],
    ]
}

/// The elements of the windows, in row-major order over
/// `(ic, ix, iy, fc, fx, fy)`: element `(fc, fx, fy)` of the window that
/// starts at `(ic, ix * sx, iy * sy)`.
pub open spec fn windows_data(t: TensorView, f: Seq<usize>, sx: nat, sy: nat) -> Seq<i64> {
    let ws = windows_shape(t.shape, f, sx, sy);
    let (nx, ny) = (ws[1] as int, ws[2] as int);
    let (fc, fx, fy) = (f[0] as int, f[1] as int, f[2] as int);
    let (x, y) = (t.shape[1] as int, t.shape[2] as int);
    Seq::new(
        prod(ws),
        |i: int|
            {
                let e_fy = i % fy;
                let r1 = i / fy;
                let e_fx = r1 % fx;
                let r2 = r1 / fx;
                let e_fc = r2 % fc;
                let r3 = r2 / fc;
                let e_iy = r3 % ny;
                let r4 = r3 / ny;
                let e_ix = r4 % nx;
                let e_ic = r4 / nx;
                t.data[((e_ic + e_fc) * x + e_ix * sx + e_fx) * y + e_iy * sy + e_fy]
            },
    )
}

/// `access-windows`: the windows of shape `f` of a 3-dimensional tensor
/// whose access axis is 3, at strides `sx` and `sy` along the last two
/// dimensions and 1 along the first. The result's access axis is 3.
pub open spec fn windows_spec(a: AccessView, f: Seq<usize>, sx: nat, sy: nat) -> Result<
    AccessView,
    InterpError,
> {
    let t = a.tensor;
    if t.ndim() != 3 {
        Err(InterpError::ShapeMismatch)
    } else if a.access_axis != 3 {
        Err(InterpError::AxisOutOfRange)
    } else if f.len() != 3 {
        Err(InterpError::ShapeMismatch)
    } else if sx == 0 || sy == 0 {
        Err(InterpError::ZeroStride)
    } else if t.shape[0] < f[0] || t.shape[1] < f[1] || t.shape[2] < f[2] {
        Err(InterpError::WindowOverflow)
    } else if window_count(t.shape[0] as nat, f[0] as nat, 1) > usize::MAX || window_count(
        t.shape[1] as nat,
        f[1] as nat,
        sx,
    ) > usize::MAX || window_count(t.shape[2] as nat, f[2] as nat, sy) > usize::MAX || span(
        windows_shape(t.shape, f, sx, sy),
    ) > usize::MAX {
        Err(InterpError::SizeOverflow)
    } else {
        Ok(
            AccessView {
                tensor: TensorView {
                    shape: windows_shape(t.shape, f, sx, sy),
                    data: windows_data(t, f, sx, sy),
                },
                access_axis: 3,
            },
        )
    }
}

/// `(size - filter) / stride + 1`, or `None` where it overflows.
fn count_windows(size: usize, filter: usize, stride: usize) -> (r: Option<usize>)
    requires
        filter <= size,
        0 < stride,
    ensures
        match r {
            Some(n) => n == window_count(size as nat, filter as nat, stride as nat),
            None => window_count(size as nat, filter as nat, stride as nat) > usize::MAX,
        },
        window_count(size as nat, filter as nat, stride as nat) == (size - filter) / (stride as int)
            + 1,
{
    let d = size - filter;
    proof {
        lemma_fundamental_div_mod(d as int, stride as int);
        vstd::arithmetic::div_mod::lemma_mod_pos_bound(d as int, stride as int);
        let (q, r) = (d as int / stride as int, d as int % stride as int);
        assert(d + stride == (q + 1) * stride + r) by (nonlinear_arith)
            requires
                d == stride * q + r,
        ;
        lemma_fundamental_div_mod_converse(
            d + stride,
            stride as int,
            d as int / stride as int + 1,
            d as int % stride as int,
        );
    }
    (d / stride).checked_add(1)
}

/// A window that starts at `ix * s` and is `f` wide ends inside `size`.
proof fn lemma_window_fits(ix: int, fx: int, size: int, f: int, s: int)
    requires
        0 < s,
        0 <= f <= size,
        0 <= ix < (size - f) / s + 1,
        0 <= fx < f,
    ensures
        0 <= ix * s + fx < size,
{
    let d = size - f;
    lemma_fundamental_div_mod(d, s);
    vstd::arithmetic::div_mod::lemma_mod_pos_bound(d, s);
    let q = d / s;
    assert(ix * s <= q * s) by (nonlinear_arith)
        requires
            0 <= ix <= q,
            0 < s,
    ;
    assert(0 <= ix * s) by (nonlinear_arith)
        requires
            0 <= ix,
            0 < s,
    ;
    assert(q * s <= d) by (nonlinear_arith)
        requires
            d == s * q + d % s,
            0 <= d % s,
    ;
}

/// `access-windows`: the sliding windows of shape `filters` over a
/// `(C, X, Y)` tensor.
pub fn access_windows(a: &Access, filters: &Vec<usize>, sx: usize, sy: usize) -> (r: Result<
    Access,
    InterpError,
>)
    requires
        a.wf(),
    ensures
        result_view(r) == windows_spec(a@, filters@, sx as nat, sy as nat),
        r is Ok ==> r->Ok_0.wf(),
{
    let ts = &a.tensor.shape;
    if ts.len() != 3 {
        return Err(InterpError::ShapeMismatch);
    }
    if a.access_axis != 3 {
        return Err(InterpError::AxisOutOfRange);
    }
    if filters.len() != 3 {
        return Err(InterpError::ShapeMismatch);
    }
    if sx == 0 || sy == 0 {
        return Err(InterpError::ZeroStride);
    }
    let (c, x, y) = (ts[0], ts[1], ts[2]);
    let (fc, fx, fy) = (filters[0], filters[1], filters[2]);
    if c < fc || x < fx || y < fy {
        return Err(InterpError::WindowOverflow);
    }
    let nc = match count_windows(c, fc, 1) {
        Some(n) => n,
        None => {
            return Err(InterpError::SizeOverflow);
        },
    };
    let nx = match count_windows(x, fx, sx) {
        Some(n) => n,
        None => {
            return Err(InterpError::SizeOverflow);
        },
    };
    let ny = match count_windows(y, fy, sy) {
        Some(n) => n,
        None => {
            return Err(InterpError::SizeOverflow);
        },
    };
    let shape: Vec<usize> = vec![nc, nx, ny, fc, fx, fy];
    let ghost ws = windows_shape(a.tensor.shape@, filters@, sx as nat, sy as nat);
    assert(shape@ =~= ws);
    match checked_span(&shape) {
        None => {
            return Err(InterpError::SizeOverflow);
        },
        Some(_) => {},
    }
    proof {
        lemma_span_bounds(shape@);
        lemma_span_bounds(a.tensor.shape@);
        reveal_with_fuel(prod, 7);
        assert(prod(a.tensor.shape@) == c * x * y);
        assert(prod(shape@) == nc * nx * ny * fc * fx * fy);
        assert((c - fc) / 1int == c - fc);
    }
    let total = shape_prod(&shape, 0, 6);
    assert(shape@.subrange(0, 6) =~= shape@);
    let ghost spec_data = windows_data(a.tensor@, filters@, sx as nat, sy as nat);
    let mut data: Vec<i64> = Vec::new();
    let mut i: usize = 0;
    while i < total
        invariant
            i <= total,
            total == nc * nx * ny * fc * fx * fy,
            a.tensor.data@.len() == c * x * y,
            c * x * y <= usize::MAX,
            a.tensor.shape@ == seq![c, x, y],
            filters@ == seq![fc, fx, fy],
            fc <= c,
            fx <= x,
            fy <= y,
            0 < sx,
            0 < sy,
            nc == c - fc + 1,
            nx == (x - fx) / (sx as int) + 1,
            ny == (y - fy) / (sy as int) + 1,
            ws == windows_shape(a.tensor.shape@, filters@, sx as nat, sy as nat),
            shape@ == ws,
            ws == seq![nc, nx, ny, fc, fx, fy],
            spec_data == windows_data(a.tensor@, filters@, sx as nat, sy as nat),
            spec_data.len() == total,
            data@ =~= spec_data.take(i as int),
        decreases total - i,
    {
        proof {
            lemma_div_bound(i as int, (nc * nx * ny * fc * fx) as int, fy as int);
            lemma_div_bound(i as int / fy as int, (nc * nx * ny * fc) as int, fx as int);
            lemma_div_bound(i as int / fy as int / fx as int, (nc * nx * ny) as int, fc as int);
            lemma_div_bound(
                i as int / fy as int / fx as int / fc as int,
                (nc * nx) as int,
                ny as int,
            );
            lemma_div_bound(
                i as int / fy as int / fx as int / fc as int / ny as int,
                nc as int,
                nx as int,
            );
        }
        let e_fy = i % fy;
        let r1 = i / fy;
        let e_fx = r1 % fx;
        let r2 = r1 / fx;
        let e_fc = r2 % fc;
        let r3 = r2 / fc;
        let e_iy = r3 % ny;
        let r4 = r3 / ny;
        let e_ix = r4 % nx;
        let e_ic = r4 / nx;
        proof {
            lemma_window_fits(e_ix as int, e_fx as int, x as int, fx as int, sx as int);
            lemma_window_fits(e_iy as int, e_fy as int, y as int, fy as int, sy as int);
            lemma_index3(
                (e_ic + e_fc) as int,
                e_ix * sx + e_fx,
                e_iy * sy + e_fy,
                c as int,
                x as int,
                y as int,
            );
        }
        let v = a.tensor.data[((e_ic + e_fc) * x + e_ix * sx + e_fx) * y + e_iy * sy + e_fy];
        data.push(v);
        i = i + 1;
    }
    assert(data@ =~= spec_data);
    Ok(Access { tensor: Tensor { shape, data }, access_axis: 3 })
}

} // verus!
