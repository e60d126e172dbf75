pub mod typosquat;
