pub mod lib;
pub mod binary_operator;
pub mod unary_operator;
pub mod list;
