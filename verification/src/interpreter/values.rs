use vstd::prelude::*;

use crate::ast::nodes::{Expression, Node};
use crate::types::types::Type;

verus! {

/// A parameter of a user function: where the argument goes, and its declared type.
pub struct VFnArg {
    pub dest: Expression,
    pub ty: Option<Type>,
}

/// A function written in the script: its parameter and the statements of its body.
pub struct VUserFn<'a> {
    pub args: VFnArg,
    pub statements: &'a Vec<Node>,
}

} // verus!
