pub mod semver_utils;
