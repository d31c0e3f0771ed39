//! Values of the tree-walking interpreter, which runs syntax trees directly.

pub mod values;
