//! Lexical environments for an embeddable Starlark-like interpreter: nested
//! scopes, freezing, symbol import between modules, the garbage-collection
//! roots of a scope, and the per-type attribute table handed to builtins.

use vstd::prelude::*;

pub mod value;
pub mod error;
pub mod table;
pub mod heap;
pub mod environment;
pub mod type_values;

pub use value::{ListRef, Value};
pub use error::{EnvironmentError, RuntimeError};
pub use heap::{GcPass, Heap};
pub use environment::{Environment, SetCall, SetConstructor, Slot};
pub use type_values::TypeValues;

verus! {

} // verus!
