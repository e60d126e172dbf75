pub mod problems;
pub mod scan;
