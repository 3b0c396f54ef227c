//! Binding generator for batch-oriented user-defined functions.
//!
//! A declarative function descriptor, together with the reflected shape of the
//! function it describes, is turned into an evaluation plan over columnar
//! batches, a catalog signature and a stable exported symbol.
pub mod array;
pub mod datatype;
pub mod descriptor;
pub mod engine;
pub mod error;
pub mod evaluator;
pub mod expand;
pub mod export;
pub mod grammar;
pub mod infer;
pub mod planner;
pub mod stream;
pub mod symbol;
pub mod table;
pub mod text;
pub mod types;
pub mod value;
