use crate::tensor::{Tensor, TensorView};
use vstd::prelude::*;

verus! {

/// How a `compute` node reduces or maps the inner dimensions of an access.
#[derive(Clone, Copy, Debug, PartialEq, Eq, Structural)]
pub enum ComputeType {
    ElementwiseMul,
    ElementwiseAdd,
    DotProduct,
    ReLU,
    ReduceSum,
    ReduceMax,
}

/// How an `access-pad` node fills the cells it adds.
#[derive(Clone, Copy, Debug, PartialEq, Eq, Structural)]
pub enum PadType {
    ZeroPadding,
}

/// Why an evaluation failed.
#[derive(Clone, Copy, Debug, PartialEq, Eq, Structural)]
pub enum InterpError {
    /// An operand evaluated to another kind of value than the one required.
    KindMismatch,
    /// A symbol is not bound in the environment.
    MissingSymbol,
    /// An axis lies outside the range the operator accepts.
    AxisOutOfRange,
    /// `access-squeeze` on a dimension whose size is not 1.
    SqueezeNonUnit,
    /// Shapes or ranks that must agree do not.
    ShapeMismatch,
    /// A window is larger than the tensor along some dimension.
    WindowOverflow,
    /// A reserved operator was reached.
    Unimplemented,
    /// A node refers to a position that is not an earlier node of the expression.
    BadReference,
    /// A window stride is zero.
    ZeroStride,
    /// A result's size does not fit in `usize`.
    SizeOverflow,
}

/// The model of an access: a tensor split at `access_axis` into outer
/// dimensions `[0, access_axis)` and inner dimensions `[access_axis, ndim)`.
pub ghost struct AccessView {
    pub tensor: TensorView,
    pub access_axis: nat,
}

impl AccessView {
    pub open spec fn wf(self) -> bool {
        self.tensor.wf() && self.access_axis <= self.tensor.ndim()
    }

    /// The outer dimensions.
    pub open spec fn outer_shape(self) -> Seq<usize> {
        self.tensor.shape.take(self.access_axis as int)
    }

    /// The inner dimensions.
    pub open spec fn inner_shape(self) -> Seq<usize> {
        self.tensor.shape.skip(self.access_axis as int)
    }
}

/// A tensor together with its access axis.
#[derive(Clone, Debug)]
pub struct Access {
    pub tensor: Tensor,
    pub access_axis: usize,
}

impl View for Access {
    type V = AccessView;

    open spec fn view(&self) -> AccessView {
        AccessView { tensor: self.tensor@, access_axis: self.access_axis as nat }
    }
}

impl Access {
    pub open spec fn wf(&self) -> bool {
        self@.wf()
    }
}

/// The model of a value.
pub ghost enum ValueView {
    Tensor(TensorView),
    Access(AccessView),
    Usize(usize),
    Shape(Seq<usize>),
    ComputeType(ComputeType),
    PadType(PadType),
}

impl ValueView {
    pub open spec fn wf(self) -> bool {
        match self {
            ValueView::Tensor(t) => t.wf(),
            ValueView::Access(a) => a.wf(),
            _ => true,
        }
    }
}

/// The result of evaluating an expression node.
#[derive(Clone, Debug)]
pub enum Value {
    Tensor(Tensor),
    Access(Access),
    Usize(usize),
    Shape(Vec<usize>),
    ComputeType(ComputeType),
    PadType(PadType),
}

impl View for Value {
    type V = ValueView;

    open spec fn view(&self) -> ValueView {
        match self {
            Value::Tensor(t) => ValueView::Tensor(t@),
            Value::Access(a) => ValueView::Access(a@),
            Value::Usize(u) => ValueView::Usize(*u),
            Value::Shape(s) => ValueView::Shape(s@),
            Value::ComputeType(c) => ValueView::ComputeType(*c),
            Value::PadType(p) => ValueView::PadType(*p),
        }
    }
}

/// The model of an evaluation result.
pub open spec fn result_view<T: View>(r: Result<T, InterpError>) -> Result<T::V, InterpError> {
    match r {
        Ok(v) => Ok(v@),
        Err(e) => Err(e),
    }
}

} // verus!
