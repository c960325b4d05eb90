use crate::access_ops::{
    access, access_pad, access_spec, access_squeeze, access_tensor, access_tensor_spec, pad_spec,
    shape_of, slice_shape, slice_shape_spec, squeeze_spec,
};
use crate::cartesian::{access_cartesian_product, cartesian_spec};
use crate::compute::{compute, compute_spec};
use crate::tensor::{Tensor, TensorView};
use crate::value::{
    result_view, Access, AccessView, ComputeType, InterpError, PadType, Value, ValueView,
};
use crate::windows::{access_windows, windows_spec};
use vstd::prelude::*;

verus! {

/// One node of an expression. Children are positions of earlier nodes.
#[derive(Clone, Debug)]
pub enum ExprNode {
    /// `(access-squeeze access axis)`
    AccessSqueeze(u32, u32),
    /// A pad type literal.
    PadType(PadType),
    /// `(access-pad access pad-type axis before after)`
    AccessPad(u32, u32, u32, u32, u32),
    /// A compute type literal.
    ComputeType(ComputeType),
    /// `(compute compute-type access)`
    Compute(u32, u32),
    /// `(access-cartesian-product access access)`
    AccessCartesianProduct(u32, u32),
    /// `(access access dim)`
    Access(u32, u32),
    /// `(access-windows access filters-shape x-stride y-stride)`
    AccessWindows(u32, u32, u32, u32),
    /// `(shape dim ...)`
    Shape(Vec<u32>),
    /// `(slice-shape shape axis)`
    SliceShape(u32, u32),
    /// `(shape-of tensor)`
    ShapeOf(u32),
    /// `(access-tensor tensor)`
    AccessTensor(u32),
    /// A tensor bound in the environment.
    Symbol(String),
    /// A non-negative integer literal.
    Usize(usize),
    // Reserved operators: evaluating one gives `InterpError::Unimplemented`.
    MoveAxis(Vec<u32>),
    CartesianProduct(Vec<u32>),
    MapDotProduct(Vec<u32>),
    Slice(Vec<u32>),
    Concatenate(Vec<u32>),
    ElementwiseAdd(Vec<u32>),
    BsgSystolicArray(Vec<u32>),
    SystolicArray(Vec<u32>),
    AccessMoveAxis(Vec<u32>),
    GetAccessShape(Vec<u32>),
    AccessReshape(Vec<u32>),
    AccessFlatten(Vec<u32>),
    AccessShape(Vec<u32>),
    AccessSlice(Vec<u32>),
    AccessConcatenate(Vec<u32>),
    AccessShiftRight(Vec<u32>),
    AccessPair(Vec<u32>),
}

/// The model of an environment: its bindings in the order they were made.
pub type EnvView = Seq<(Seq<char>, TensorView)>;

/// The tensor bound to `name`; the latest binding of a name hides earlier ones.
pub open spec fn lookup(env: EnvView, name: Seq<char>) -> Option<TensorView>
    decreases env.len(),
{
    if env.len() == 0 {
        None
    } else if env.last().0 == name {
        Some(env.last().1)
    } else {
        lookup(env.drop_last(), name)
    }
}

/// Binds symbol names to tensors.
pub struct Environment {
    bindings: Vec<(String, Tensor)>,
}

impl View for Environment {
    type V = EnvView;

    closed spec fn view(&self) -> EnvView {
        self.bindings@.map_values(|b: (String, Tensor)| (b.0@, b.1@))
    }
}

impl Environment {
    /// Every bound tensor is well formed.
    pub open spec fn wf(&self) -> bool {
        forall|i: int| 0 <= i < self@.len() ==> (#[trigger] self@[i]).1.wf()
    }

    /// An environment with no bindings.
    pub fn new() -> (r: Environment)
        ensures
            r@ == Seq::<(Seq<char>, TensorView)>::empty(),
            r.wf(),
    {
        let r = Environment { bindings: Vec::new() };
        assert(r@ =~= Seq::<(Seq<char>, TensorView)>::empty());
        r
    }

    /// Binds `name` to `t`, hiding any earlier binding of `name`.
    pub fn insert(&mut self, name: String, t: Tensor)
        requires
            old(self).wf(),
            t.wf(),
        ensures
            final(self)@ == old(self)@.push((name@, t@)),
            final(self).wf(),
    {
        let ghost name_view = name@;
        let ghost t_view = t@;
        self.bindings.push((name, t));
        assert(self@ =~= old(self)@.push((name_view, t_view)));
    }

    /// A copy of the tensor bound to `name`.
    pub fn get(&self, name: &String) -> (r: Option<Tensor>)
        requires
            self.wf(),
        ensures
            match r {
                Some(t) => lookup(self@, name@) == Some(t@) && t.wf(),
                None => lookup(self@, name@) is None,
            },
    {
        let mut i: usize = self.bindings.len();
        assert(self@.take(i as int) =~= self@);
        while i > 0
            invariant
                i <= self.bindings@.len(),
                self.wf(),
                lookup(self@, name@) == lookup(self@.take(i as int), name@),
            decreases i,
        {
            assert(self@.take(i as int).drop_last() =~= self@.take(i - 1));
            assert(self@[i - 1] == (self.bindings@[i - 1].0@, self.bindings@[i - 1].1@));
            if self.bindings[i - 1].0 == *name {
                let t = &self.bindings[i - 1].1;
                return Some(Tensor { shape: t.shape.clone(), data: t.data.clone() });
            }
            i = i - 1;
        }
        None
    }
}

/// Takes an access out of an evaluation result.
pub open spec fn as_access(r: Result<ValueView, InterpError>) -> Result<AccessView, InterpError> {
    match r {
        Err(e) => Err(e),
        Ok(ValueView::Access(a)) => Ok(a),
        Ok(_) => Err(InterpError::KindMismatch),
    }
}

/// Takes a tensor out of an evaluation result.
pub open spec fn as_tensor(r: Result<ValueView, InterpError>) -> Result<TensorView, InterpError> {
    match r {
        Err(e) => Err(e),
        Ok(ValueView::Tensor(t)) => Ok(t),
        Ok(_) => Err(InterpError::KindMismatch),
    }
}

/// Takes an integer out of an evaluation result.
pub open spec fn as_usize(r: Result<ValueView, InterpError>) -> Result<usize, InterpError> {
    match r {
        Err(e) => Err(e),
        Ok(ValueView::Usize(u)) => Ok(u),
        Ok(_) => Err(InterpError::KindMismatch),
    }
}

/// Takes a shape out of an evaluation result.
pub open spec fn as_shape(r: Result<ValueView, InterpError>) -> Result<Seq<usize>, InterpError> {
    match r {
        Err(e) => Err(e),
        Ok(ValueView::Shape(s)) => Ok(s),
        Ok(_) => Err(InterpError::KindMismatch),
    }
}

/// Takes a compute type out of an evaluation result.
pub open spec fn as_compute_type(r: Result<ValueView, InterpError>) -> Result<
    ComputeType,
    InterpError,
> {
    match r {
        Err(e) => Err(e),
        Ok(ValueView::ComputeType(c)) => Ok(c),
        Ok(_) => Err(InterpError::KindMismatch),
    }
}

/// Takes a pad type out of an evaluation result.
pub open spec fn as_pad_type(r: Result<ValueView, InterpError>) -> Result<PadType, InterpError> {
    match r {
        Err(e) => Err(e),
        Ok(ValueView::PadType(p)) => Ok(p),
        Ok(_) => Err(InterpError::KindMismatch),
    }
}

/// An operator's access result as a value.
pub open spec fn access_value(r: Result<AccessView, InterpError>) -> Result<ValueView, InterpError> {
    match r {
        Err(e) => Err(e),
        Ok(a) => Ok(ValueView::Access(a)),
    }
}

/// The value of child `c` of the node at `index`: `c` must be an earlier node.
pub open spec fn eval_child(expr: Seq<ExprNode>, index: int, c: u32, env: EnvView) -> Result<
    ValueView,
    InterpError,
>
    decreases index, 0int, 0int,
{
    if c < index {
        eval(expr, c as int, env)
    } else {
        Err(InterpError::BadReference)
    }
}

/// The dimensions that the children `list` of the node at `index` evaluate to.
pub open spec fn eval_dims(expr: Seq<ExprNode>, index: int, list: Seq<u32>, env: EnvView) -> Result<
    Seq<usize>,
    InterpError,
>
    decreases index, 0int, list.len(),
{
    if list.len() == 0 {
        Ok(Seq::empty())
    } else {
        match eval_dims(expr, index, list.drop_last(), env) {
            Err(e) => Err(e),
            Ok(dims) => match as_usize(eval_child(expr, index, list.last(), env)) {
                Err(e) => Err(e),
                Ok(u) => Ok(dims.push(u)),
            },
        }
    }
}

/// The value of the node at `index`, its children evaluated first to last.
pub open spec fn eval(expr: Seq<ExprNode>, index: int, env: EnvView) -> Result<ValueView, InterpError>
    decreases index, 1int, 0int,
{
    if index < 0 || index >= expr.len() {
        Err(InterpError::BadReference)
    } else {
        match expr[index] {
            ExprNode::Usize(u) => Ok(ValueView::Usize(u)),
            ExprNode::PadType(p) => Ok(ValueView::PadType(p)),
            ExprNode::ComputeType(c) => Ok(ValueView::ComputeType(c)),
            ExprNode::Symbol(s) => match lookup(env, s@) {
                Some(t) => Ok(ValueView::Tensor(t)),
                None => Err(InterpError::MissingSymbol),
            },
            ExprNode::Shape(list) => match eval_dims(expr, index, list@, env) {
                Err(e) => Err(e),
                Ok(dims) => Ok(ValueView::Shape(dims)),
            },
            ExprNode::ShapeOf(c0) => match as_tensor(eval_child(expr, index, c0, env)) {
                Err(e) => Err(e),
                Ok(t) => Ok(ValueView::Shape(t.shape)),
            },
            ExprNode::SliceShape(c0, c1) => match as_shape(eval_child(expr, index, c0, env)) {
                Err(e) => Err(e),
                Ok(s) => match as_usize(eval_child(expr, index, c1, env)) {
                    Err(e) => Err(e),
                    Ok(u) => Ok(ValueView::Shape(slice_shape_spec(s, u as nat))),
                },
            },
            ExprNode::AccessTensor(c0) => match as_tensor(eval_child(expr, index, c0, env)) {
                Err(e) => Err(e),
                Ok(t) => Ok(ValueView::Access(access_tensor_spec(t))),
            },
            ExprNode::Access(c0, c1) => match as_access(eval_child(expr, index, c0, env)) {
                Err(e) => Err(e),
                Ok(a) => match as_usize(eval_child(expr, index, c1, env)) {
                    Err(e) => Err(e),
                    Ok(d) => access_value(access_spec(a, d as nat)),
                },
            },
            ExprNode::AccessSqueeze(c0, c1) => match as_access(eval_child(expr, index, c0, env)) {
                Err(e) => Err(e),
                Ok(a) => match as_usize(eval_child(expr, index, c1, env)) {
                    Err(e) => Err(e),
                    Ok(d) => access_value(squeeze_spec(a, d as nat)),
                },
            },
            ExprNode::AccessPad(c0, c1, c2, c3, c4) => match as_access(
                eval_child(expr, index, c0, env),
            ) {
                Err(e) => Err(e),
                Ok(a) => match as_pad_type(eval_child(expr, index, c1, env)) {
                    Err(e) => Err(e),
                    Ok(p) => match as_usize(eval_child(expr, index, c2, env)) {
                        Err(e) => Err(e),
                        Ok(axis) => match as_usize(eval_child(expr, index, c3, env)) {
                            Err(e) => Err(e),
                            Ok(before) => match as_usize(eval_child(expr, index, c4, env)) {
                                Err(e) => Err(e),
                                Ok(after) => access_value(
                                    pad_spec(a, p, axis as nat, before as nat, after as nat),
                                ),
                            },
                        },
                    },
                },
            },
            ExprNode::Compute(c0, c1) => match as_compute_type(eval_child(expr, index, c0, env)) {
                Err(e) => Err(e),
                Ok(ct) => match as_access(eval_child(expr, index, c1, env)) {
                    Err(e) => Err(e),
                    Ok(a) => Ok(ValueView::Access(compute_spec(ct, a))),
                },
            },
            ExprNode::AccessCartesianProduct(c0, c1) => match as_access(
                eval_child(expr, index, c0, env),
            ) {
                Err(e) => Err(e),
                Ok(a0) => match as_access(eval_child(expr, index, c1, env)) {
                    Err(e) => Err(e),
                    Ok(a1) => access_value(cartesian_spec(a0, a1)),
                },
            },
            ExprNode::AccessWindows(c0, c1, c2, c3) => match as_access(
                eval_child(expr, index, c0, env),
            ) {
                Err(e) => Err(e),
                Ok(a) => match as_shape(eval_child(expr, index, c1, env)) {
                    Err(e) => Err(e),
                    Ok(f) => match as_usize(eval_child(expr, index, c2, env)) {
                        Err(e) => Err(e),
                        Ok(sx) => match as_usize(eval_child(expr, index, c3, env)) {
                            Err(e) => Err(e),
                            Ok(sy) => access_value(windows_spec(a, f, sx as nat, sy as nat)),
                        },
                    },
                },
            },
            _ => Err(InterpError::Unimplemented),
        }
    }
}

/// An error in an earlier part of a `shape` node's children is the node's error.
proof fn lemma_dims_prefix_err(
    expr: Seq<ExprNode>,
    index: int,
    list: Seq<u32>,
    k: int,
    env: EnvView,
)
    requires
        0 <= k <= list.len(),
        eval_dims(expr, index, list.take(k), env) is Err,
    ensures
        eval_dims(expr, index, list, env) == eval_dims(expr, index, list.take(k), env),
    decreases list.len() - k,
{
    if list.len() == k {
        assert(list.take(k) =~= list);
    } else {
        assert(list.drop_last().take(k) =~= list.take(k));
        lemma_dims_prefix_err(expr, index, list.drop_last(), k, env);
    }
}

fn take_access(r: Result<Value, InterpError>) -> (o: Result<Access, InterpError>)
    requires
        r is Ok ==> r->Ok_0@.wf(),
    ensures
        result_view(o) == as_access(result_view(r)),
        o is Ok ==> o->Ok_0.wf(),
{
    match r {
        Err(e) => Err(e),
        Ok(Value::Access(a)) => Ok(a),
        Ok(_) => Err(InterpError::KindMismatch),
    }
}

fn take_tensor(r: Result<Value, InterpError>) -> (o: Result<Tensor, InterpError>)
    requires
        r is Ok ==> r->Ok_0@.wf(),
    ensures
        result_view(o) == as_tensor(result_view(r)),
        o is Ok ==> o->Ok_0.wf(),
{
    match r {
        Err(e) => Err(e),
        Ok(Value::Tensor(t)) => Ok(t),
        Ok(_) => Err(InterpError::KindMismatch),
    }
}

fn take_usize(r: Result<Value, InterpError>) -> (o: Result<usize, InterpError>)
    ensures
        match o {
            Ok(u) => as_usize(result_view(r)) == Ok::<usize, InterpError>(u),
            Err(e) => as_usize(result_view(r)) == Err::<usize, InterpError>(e),
        },
{
    match r {
        Err(e) => Err(e),
        Ok(Value::Usize(u)) => Ok(u),
        Ok(_) => Err(InterpError::KindMismatch),
    }
}

fn take_shape(r: Result<Value, InterpError>) -> (o: Result<Vec<usize>, InterpError>)
    ensures
        result_view(o) == as_shape(result_view(r)),
{
    match r {
        Err(e) => Err(e),
        Ok(Value::Shape(s)) => Ok(s),
        Ok(_) => Err(InterpError::KindMismatch),
    }
}

fn take_compute_type(r: Result<Value, InterpError>) -> (o: Result<ComputeType, InterpError>)
    ensures
        match o {
            Ok(c) => as_compute_type(result_view(r)) == Ok::<ComputeType, InterpError>(c),
            Err(e) => as_compute_type(result_view(r)) == Err::<ComputeType, InterpError>(e),
        },
{
    match r {
        Err(e) => Err(e),
        Ok(Value::ComputeType(c)) => Ok(c),
        Ok(_) => Err(InterpError::KindMismatch),
    }
}

fn take_pad_type(r: Result<Value, InterpError>) -> (o: Result<PadType, InterpError>)
    ensures
        match o {
            Ok(p) => as_pad_type(result_view(r)) == Ok::<PadType, InterpError>(p),
            Err(e) => as_pad_type(result_view(r)) == Err::<PadType, InterpError>(e),
        },
{
    match r {
        Err(e) => Err(e),
        Ok(Value::PadType(p)) => Ok(p),
        Ok(_) => Err(InterpError::KindMismatch),
    }
}

fn wrap_access(r: Result<Access, InterpError>) -> (o: Result<Value, InterpError>)
    requires
        r is Ok ==> r->Ok_0.wf(),
    ensures
        result_view(o) == access_value(result_view(r)),
        o is Ok ==> o->Ok_0@.wf(),
{
    match r {
        Err(e) => Err(e),
        Ok(a) => Ok(Value::Access(a)),
    }
}

/// Evaluates child `c` of the node at `index`.
fn interpret_child(expr: &Vec<ExprNode>, index: usize, c: u32, env: &Environment) -> (r: Result<
    Value,
    InterpError,
>)
    requires
        env.wf(),
    ensures
        result_view(r) == eval_child(expr@, index as int, c, env@),
        r is Ok ==> r->Ok_0@.wf(),
    decreases index, 0int, 0int,
{
    if (c as usize) < index {
        interpret(expr, c as usize, env)
    } else {
        Err(InterpError::BadReference)
    }
}

/// Evaluates the children `list` of a `shape` node to dimensions.
fn interpret_dims(expr: &Vec<ExprNode>, index: usize, list: &Vec<u32>, env: &Environment) -> (r:
    Result<Vec<usize>, InterpError>)
    requires
        env.wf(),
    ensures
        result_view(r) == eval_dims(expr@, index as int, list@, env@),
    decreases index, 0int, 1int,
{
    let mut dims: Vec<usize> = Vec::new();
    let mut i: usize = 0;
    assert(list@.take(0) =~= Seq::<u32>::empty());
    while i < list.len()
        invariant
            i <= list@.len(),
            env.wf(),
            eval_dims(expr@, index as int, list@.take(i as int), env@) == Ok::<
                Seq<usize>,
                InterpError,
            >(dims@),
        decreases list.len() - i,
    {
        assert(list@.take(i + 1).drop_last() =~= list@.take(i as int));
        assert(list@.take(i + 1).last() == list@[i as int]);
        match take_usize(interpret_child(expr, index, list[i], env)) {
            Err(e) => {
                proof {
                    lemma_dims_prefix_err(expr@, index as int, list@, i + 1, env@);
                }
                return Err(e);
            },
            Ok(u) => {
                dims.push(u);
            },
        }
        i = i + 1;
    }
    assert(list@.take(i as int) =~= list@);
    Ok(dims)
}

/// Evaluates the node at `index` of `expr`, whose children are earlier
/// nodes, with the symbols bound in `env`.
pub fn interpret(expr: &Vec<ExprNode>, index: usize, env: &Environment) -> (r: Result<
    Value,
    InterpError,
>)
    requires
        env.wf(),
    ensures
        result_view(r) == eval(expr@, index as int, env@),
        r is Ok ==> r->Ok_0@.wf(),
    decreases index, 1int, 0int,
{
    if index >= expr.len() {
        return Err(InterpError::BadReference);
    }
    match &expr[index] {
        ExprNode::Usize(u) => Ok(Value::Usize(*u)),
        ExprNode::PadType(p) => Ok(Value::PadType(*p)),
        ExprNode::ComputeType(c) => Ok(Value::ComputeType(*c)),
        ExprNode::Symbol(s) => match env.get(s) {
            Some(t) => Ok(Value::Tensor(t)),
            None => Err(InterpError::MissingSymbol),
        },
        ExprNode::Shape(list) => match interpret_dims(expr, index, list, env) {
            Err(e) => Err(e),
            Ok(dims) => Ok(Value::Shape(dims)),
        },
        ExprNode::ShapeOf(c0) => {
            let t = take_tensor(interpret_child(expr, index, *c0, env))?;
            Ok(Value::Shape(shape_of(&t)))
        },
        ExprNode::SliceShape(c0, c1) => {
            let s = take_shape(interpret_child(expr, index, *c0, env))?;
            let u = take_usize(interpret_child(expr, index, *c1, env))?;
            Ok(Value::Shape(slice_shape(&s, u)))
        },
        ExprNode::AccessTensor(c0) => {
            let t = take_tensor(interpret_child(expr, index, *c0, env))?;
            Ok(Value::Access(access_tensor(t)))
        },
        ExprNode::Access(c0, c1) => {
            let a = take_access(interpret_child(expr, index, *c0, env))?;
            let d = take_usize(interpret_child(expr, index, *c1, env))?;
            wrap_access(access(a, d))
        },
        ExprNode::AccessSqueeze(c0, c1) => {
            let a = take_access(interpret_child(expr, index, *c0, env))?;
            let d = take_usize(interpret_child(expr, index, *c1, env))?;
            wrap_access(access_squeeze(a, d))
        },
        ExprNode::AccessPad(c0, c1, c2, c3, c4) => {
            let a = take_access(interpret_child(expr, index, *c0, env))?;
            let p = take_pad_type(interpret_child(expr, index, *c1, env))?;
            let axis = take_usize(interpret_child(expr, index, *c2, env))?;
            let before = take_usize(interpret_child(expr, index, *c3, env))?;
            let after = take_usize(interpret_child(expr, index, *c4, env))?;
            wrap_access(access_pad(a, p, axis, before, after))
        },
        ExprNode::Compute(c0, c1) => {
            let ct = take_compute_type(interpret_child(expr, index, *c0, env))?;
            let a = take_access(interpret_child(expr, index, *c1, env))?;
            Ok(Value::Access(compute(ct, a)))
        },
        ExprNode::AccessCartesianProduct(c0, c1) => {
            let a0 = take_access(interpret_child(expr, index, *c0, env))?;
            let a1 = take_access(interpret_child(expr, index, *c1, env))?;
            wrap_access(access_cartesian_product(&a0, &a1))
        },
        ExprNode::AccessWindows(c0, c1, c2, c3) => {
            let a = take_access(interpret_child(expr, index, *c0, env))?;
            let f = take_shape(interpret_child(expr, index, *c1, env))?;
            let sx = take_usize(interpret_child(expr, index, *c2, env))?;
            let sy = take_usize(interpret_child(expr, index, *c3, env))?;
            wrap_access(access_windows(&a, &f, sx, sy))
        },
        _ => Err(InterpError::Unimplemented),
    }
}

} // verus!
