pub mod packages;
pub mod runner;
