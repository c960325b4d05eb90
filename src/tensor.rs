use vstd::arithmetic::mul::*;
use vstd::prelude::*;

verus! {

/// The product of a sequence of dimensions: the number of elements of a
/// tensor of that shape.
pub open spec fn prod(s: Seq<usize>) -> nat
    decreases s.len(),
{
    if s.len() == 0 {
        1
    } else {
        prod(s.drop_last()) * (s.last() as nat)
    }
}

/// A dimension counted as at least 1.
pub open spec fn at_least_one(d: usize) -> nat {
    if d == 0 {
        1
    } else {
        d as nat
    }
}

/// The product of a shape's dimensions with empty dimensions counted as 1.
/// It bounds the product of every part of the shape, so a shape whose span
/// fits in `usize` has every partial product fit as well.
pub open spec fn span(s: Seq<usize>) -> nat
    decreases s.len(),
{
    if s.len() == 0 {
        1
    } else {
        span(s.drop_last()) * at_least_one(s.last())
    }
}

/// The mathematical model of a tensor: its shape and its elements in
/// row-major order.
pub ghost struct TensorView {
    pub shape: Seq<usize>,
    pub data: Seq<i64>,
}

impl TensorView {
    pub open spec fn ndim(self) -> nat {
        self.shape.len()
    }

    /// The element count matches the shape, and the shape's span fits in `usize`.
    pub open spec fn wf(self) -> bool {
        &&& self.data.len() == prod(self.shape)
        &&& span(self.shape) <= usize::MAX
    }
}

/// A dense n-dimensional array of `i64`, stored in row-major order.
#[derive(Clone, Debug)]
pub struct Tensor {
    pub shape: Vec<usize>,
    pub data: Vec<i64>,
}

impl View for Tensor {
    type V = TensorView;

    open spec fn view(&self) -> TensorView {
        TensorView { shape: self.shape@, data: self.data@ }
    }
}

pub proof fn lemma_prod_concat(a: Seq<usize>, b: Seq<usize>)
    ensures
        prod(a + b) == prod(a) * prod(b),
        span(a + b) == span(a) * span(b),
    decreases b.len(),
{
    if b.len() == 0 {
        assert(a + b =~= a);
        assert(prod(b) == 1 && span(b) == 1);
    } else {
        assert((a + b).drop_last() =~= a + b.drop_last());
        assert((a + b).last() == b.last());
        lemma_prod_concat(a, b.drop_last());
        lemma_mul_is_associative(prod(a) as int, prod(b.drop_last()) as int, b.last() as int);
        lemma_mul_is_associative(
            span(a) as int,
            span(b.drop_last()) as int,
            at_least_one(b.last()) as int,
        );
    }
}

pub proof fn lemma_span_bounds(s: Seq<usize>)
    ensures
        1 <= span(s),
        prod(s) <= span(s),
    decreases s.len(),
{
    if s.len() > 0 {
        lemma_span_bounds(s.drop_last());
        lemma_mul_increases(at_least_one(s.last()) as int, span(s.drop_last()) as int);
        lemma_mul_is_commutative(at_least_one(s.last()) as int, span(s.drop_last()) as int);
        let (p, q, d, e) = (
            prod(s.drop_last()) as int,
            span(s.drop_last()) as int,
            s.last() as int,
            at_least_one(s.last()) as int,
        );
        assert(p * d <= q * e) by (nonlinear_arith)
            requires
                0 <= p <= q,
                0 <= d <= e,
        ;
    }
}

/// A contiguous part of a shape has a span no larger than the whole's.
pub proof fn lemma_span_part(s: Seq<usize>, lo: int, hi: int)
    requires
        0 <= lo <= hi <= s.len(),
    ensures
        span(s.subrange(lo, hi)) <= span(s),
        prod(s.subrange(lo, hi)) <= span(s),
{
    let a = s.subrange(0, lo);
    let b = s.subrange(lo, hi);
    let c = s.subrange(hi, s.len() as int);
    assert(s =~= a + b + c);
    lemma_prod_concat(a, b);
    lemma_prod_concat(a + b, c);
    lemma_span_bounds(a);
    lemma_span_bounds(b);
    lemma_span_bounds(c);
    lemma_mul_increases(span(a) as int, span(b) as int);
    lemma_mul_is_commutative(span(a) as int, span(b) as int);
    lemma_mul_increases(span(c) as int, span(a + b) as int);
    lemma_mul_is_commutative(span(c) as int, span(a + b) as int);
}

/// Splits a shape at `k`: its product is that of the two parts.
pub proof fn lemma_prod_split(s: Seq<usize>, k: int)
    requires
        0 <= k <= s.len(),
    ensures
        prod(s) == prod(s.take(k)) * prod(s.skip(k)),
        span(s) == span(s.take(k)) * span(s.skip(k)),
{
    assert(s =~= s.take(k) + s.skip(k));
    lemma_prod_concat(s.take(k), s.skip(k));
}

pub proof fn lemma_prod_single(d: usize)
    ensures
        prod(seq![d]) == d,
        span(seq![d]) == at_least_one(d),
{
    let s = seq![d];
    assert(s.drop_last() =~= Seq::<usize>::empty());
    assert(s.len() == 1);
    assert(s.last() == d);
    assert(prod(s.drop_last()) == 1);
    assert(span(s.drop_last()) == 1);
    assert(prod(s) == prod(s.drop_last()) * (s.last() as nat));
    assert(span(s) == span(s.drop_last()) * at_least_one(s.last()));
}

/// Splits a shape around the dimension `k`.
pub proof fn lemma_prod_split3(s: Seq<usize>, k: int)
    requires
        0 <= k < s.len(),
    ensures
        prod(s) == prod(s.take(k)) * s[k] * prod(s.skip(k + 1)),
        prod(s.skip(k)) == s[k] * prod(s.skip(k + 1)),
{
    lemma_prod_split(s, k);
    let t = s.skip(k);
    assert(t =~= seq![s[k]] + s.skip(k + 1));
    lemma_prod_concat(seq![s[k]], s.skip(k + 1));
    lemma_prod_single(s[k]);
    lemma_mul_is_associative(prod(s.take(k)) as int, s[k] as int, prod(s.skip(k + 1)) as int);
}

/// Removing dimension `k` leaves the product of the parts on either side,
/// and does not increase the span.
pub proof fn lemma_remove_dim(s: Seq<usize>, k: int)
    requires
        0 <= k < s.len(),
    ensures
        s.remove(k) == s.take(k) + s.skip(k + 1),
        prod(s.remove(k)) == prod(s.take(k)) * prod(s.skip(k + 1)),
        span(s.remove(k)) <= span(s),
{
    assert(s.remove(k) =~= s.take(k) + s.skip(k + 1));
    lemma_prod_concat(s.take(k), s.skip(k + 1));
    lemma_prod_split(s, k);
    assert(s.skip(k) =~= seq![s[k]] + s.skip(k + 1));
    lemma_prod_concat(seq![s[k]], s.skip(k + 1));
    lemma_prod_single(s[k]);
    lemma_span_bounds(s.take(k));
    lemma_span_bounds(s.skip(k + 1));
    let (a, b, c) = (span(s.take(k)) as int, at_least_one(s[k]) as int, span(s.skip(k + 1)) as int);
    assert(a * c <= a * (b * c)) by (nonlinear_arith)
        requires
            1 <= a,
            1 <= b,
            1 <= c,
    ;
}

/// The first `k` dimensions of a shape.
pub fn shape_prefix(shape: &Vec<usize>, k: usize) -> (r: Vec<usize>)
    requires
        k <= shape@.len(),
    ensures
        r@ == shape@.take(k as int),
{
    let mut r: Vec<usize> = Vec::new();
    let mut i: usize = 0;
    while i < k
        invariant
            i <= k <= shape@.len(),
            r@ =~= shape@.take(i as int),
        decreases k - i,
    {
        r.push(shape[i]);
        i = i + 1;
    }
    r
}

/// The product of `shape[lo..hi]`.
pub fn shape_prod(shape: &Vec<usize>, lo: usize, hi: usize) -> (r: usize)
    requires
        lo <= hi <= shape@.len(),
        span(shape@) <= usize::MAX,
    ensures
        r == prod(shape@.subrange(lo as int, hi as int)),
{
    let mut acc: usize = 1;
    let mut i: usize = lo;
    while i < hi
        invariant
            lo <= i <= hi <= shape@.len(),
            span(shape@) <= usize::MAX,
            acc == prod(shape@.subrange(lo as int, i as int)),
        decreases hi - i,
    {
        proof {
            assert(shape@.subrange(lo as int, i + 1).drop_last() =~= shape@.subrange(
                lo as int,
                i as int,
            ));
            lemma_span_part(shape@, lo as int, i + 1);
        }
        acc = acc * shape[i];
        i = i + 1;
    }
    acc
}

/// The span of a shape, or `None` where it exceeds `usize::MAX`.
pub fn checked_span(shape: &Vec<usize>) -> (r: Option<usize>)
    ensures
        match r {
            Some(v) => v == span(shape@),
            None => span(shape@) > usize::MAX,
        },
{
    let mut acc: usize = 1;
    let mut i: usize = 0;
    while i < shape.len()
        invariant
            i <= shape@.len(),
            acc == span(shape@.take(i as int)),
        decreases shape.len() - i,
    {
        assert(shape@.take(i + 1).drop_last() =~= shape@.take(i as int));
        let d: usize = if shape[i] == 0 {
            1
        } else {
            shape[i]
        };
        match acc.checked_mul(d) {
            Some(v) => {
                acc = v;
            },
            None => {
                proof {
                    lemma_span_part(shape@, 0, i + 1);
                    assert(shape@.subrange(0, i + 1) =~= shape@.take(i + 1));
                }
                return None;
            },
        }
        i = i + 1;
    }
    assert(shape@.take(i as int) =~= shape@);
    Some(acc)
}

impl Tensor {
    pub open spec fn wf(&self) -> bool {
        self@.wf()
    }

    /// Builds a tensor from its shape and its elements in row-major order.
    /// Returns `None` where the element count does not match the shape, or
    /// the shape's span does not fit in `usize`.
    pub fn new(shape: Vec<usize>, data: Vec<i64>) -> (r: Option<Tensor>)
        ensures
            match r {
                Some(t) => t@ == (TensorView { shape: shape@, data: data@ }) && t.wf(),
                None => !(TensorView { shape: shape@, data: data@ }).wf(),
            },
    {
        match checked_span(&shape) {
            None => None,
            Some(_) => {
                proof {
                    lemma_span_part(shape@, 0, shape@.len() as int);
                    assert(shape@.subrange(0, shape@.len() as int) =~= shape@);
                }
                let n = shape_prod(&shape, 0, shape.len());
                assert(shape@.subrange(0, shape@.len() as int) =~= shape@);
                if n == data.len() {
                    Some(Tensor { shape, data })
                } else {
                    None
                }
            },
        }
    }

    pub fn ndim(&self) -> (r: usize)
        ensures
            r == self@.ndim(),
    {
        self.shape.len()
    }

    /// The tensor's shape.
    pub fn shape(&self) -> (r: &[usize])
        ensures
            r@ == self.shape@,
    {
        self.shape.as_slice()
    }

    /// The tensor's elements in row-major order.
    pub fn data(&self) -> (r: &[i64])
        ensures
            r@ == self.data@,
    {
        self.data.as_slice()
    }
}

} // verus!
