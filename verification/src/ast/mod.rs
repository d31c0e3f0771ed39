pub mod nodes;
pub mod measure;
