pub mod console;
pub mod markdown;
