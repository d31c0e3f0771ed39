pub mod standard;
