pub mod flatten;
pub mod num;
pub mod output;
pub mod paths;
pub mod records;
pub mod tree;
