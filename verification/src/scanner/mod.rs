pub mod manifest;
pub mod repo_finder;
pub mod version_matcher;
