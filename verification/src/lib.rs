pub mod ast;
pub mod bignum;
pub mod eval;
pub mod dyn_function;
pub mod errors;
pub mod escape;
pub mod floats;
pub mod laws;
pub mod lexer;
pub mod parser;
pub mod runtime;
pub mod stdlib;
pub mod token;
pub mod machine_ints;
pub mod tuples;
pub mod value;

pub use crate::dyn_function::IntoDynFn;
pub use crate::eval::Rustua;
pub use crate::value::FromValue;
