pub mod cli;
pub mod deep_scan;
pub mod feed;
pub mod fetcher;
pub mod fixer;
pub mod harvest;
pub mod llm;
pub mod problems;
pub mod reporter;
pub mod scanner;
pub mod supply_chain;
pub mod text;
pub mod utils;
pub mod watcher;
