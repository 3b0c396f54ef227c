//! Errors of generation and of evaluation.
use vstd::prelude::*;

verus! {

/// A descriptor, or its combination with a user function, that nothing can
/// be generated from.
#[derive(Clone, Copy, PartialEq, Eq, Structural, Debug)]
pub enum ConfigError {
    /// The argument at this position names no concrete type.
    MalformedArgument(usize),
    /// The result names no concrete type.
    MalformedReturn,
    /// The user function takes fewer arguments than the descriptor lists.
    MissingArguments,
    /// A table function whose items have no known shape.
    MissingItemShape,
    /// A whole-batch implementation was named for a variadic function.
    VariadicBatchFunction,
    /// The user function writes into a sink, but the result is neither text
    /// nor binary.
    WriterNeedsTextOrBinary,
    /// The result type depends on the arguments and nothing says how.
    TypeInferenceRequired,
    /// The canonical signature is too long to be encoded into a symbol.
    SignatureTooLong,
}

} // verus!
