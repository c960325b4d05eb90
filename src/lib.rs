//! An interpreter for a tensor-algebra intermediate language.
//!
//! Expressions are post-order sequences of operator nodes whose children are
//! referred to by position. Evaluating a node yields a [`Value`]; the most
//! common one is an access: a tensor together with an access axis that splits
//! its dimensions into outer (iterated) and inner (value) groups.
//!
//! Tensors hold `i64` elements in row-major order. Element arithmetic is
//! two's-complement (wrapping) arithmetic, so results agree with exact integer
//! arithmetic whenever they fit in an `i64`.
//!
//! Each operator is an executable function whose contract equals a spec
//! function of the same name with a `_spec` suffix; `interpret` is tied in the
//! same way to `eval`. The `law_*` proof functions state and prove the
//! general properties of the operators and of evaluation.

mod access_ops;
mod cartesian;
mod compute;
mod index;
mod interpreter;
mod laws;
mod tensor;
mod value;
mod windows;

pub use access_ops::{
    access, access_pad, access_spec, access_squeeze, access_tensor, access_tensor_spec, pad_spec,
    padded, padded_shape, shape_of, slice_shape, slice_shape_spec, squeeze_spec,
};
pub use cartesian::{access_cartesian_product, cartesian_spec, paired, product_shape};
pub use compute::{
    compute, compute_spec, dot_product_spec, fiber, first_inner, fold_first_inner, inner_count,
    inner_rest_count, max_of, outer_count, product_of, reduce_spec, relu, row, sum_of,
};
pub use interpreter::{
    access_value, as_access, as_compute_type, as_pad_type, as_shape, as_tensor, as_usize, eval,
    eval_child, eval_dims, interpret, lookup, EnvView, Environment, ExprNode,
};
pub use laws::{
    law_access_sets_axis, law_access_tensor, law_cartesian_product, law_eval_depends_on_lookup,
    law_eval_deterministic, law_reduce_max, law_reduce_sum, law_squeeze, law_windows,
    law_zero_pad, lemma_max_of,
};
pub use tensor::{prod, span, Tensor, TensorView};
pub use value::{
    result_view, Access, AccessView, ComputeType, InterpError, PadType, Value, ValueView,
};
pub use windows::{access_windows, window_count, windows_data, windows_shape, windows_spec};
