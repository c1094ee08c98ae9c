pub mod count;
pub mod fold;
pub mod reduce;
