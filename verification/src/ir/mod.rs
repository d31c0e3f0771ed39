pub mod ir;
pub mod scopes;
pub mod translate;
pub mod support;
pub mod path;
pub mod compile;
pub mod scope;
