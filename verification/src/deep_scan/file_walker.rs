//! Which entries the source walk skips and which files it keeps.

use vstd::prelude::*;

use crate::text::str_eq;

verus! {

/// The directory names the walk never enters.
pub open spec fn skipped_dir_names() -> Seq<Seq<char>> {
    seq!["node_modules"@, "vendor"@, "target"@, ".git"@, "dist"@, "build"@, ".next"@]
}

/// Whether the walk skips an entry of this name (with all below it).
pub fn is_skipped_entry(name: &str) -> (r: bool)
    ensures
        r == skipped_dir_names().contains(name@),
{
    let names = ["node_modules", "vendor", "target", ".git", "dist", "build", ".next"];
    let mut k: usize = 0;
    while k < 7
        invariant
            k <= 7,
            names@.map_values(|s: &str| s@) == skipped_dir_names(),
            forall|t: int| 0 <= t < k ==> skipped_dir_names()[t] != name@,
        decreases 7 - k,
    {
        if str_eq(names[k], name) {
            assert(skipped_dir_names()[k as int] == name@);
            return true;
        }
        k = k + 1;
    }
    false
}

/// Whether a file with this extension is one of the wanted ones.
pub fn has_wanted_extension(ext: &str, extensions: &[&str]) -> (r: bool)
    ensures
        r == extensions@.map_values(|e: &str| e@).contains(ext@),
{
    let ghost ev = extensions@.map_values(|e: &str| e@);
    let mut k: usize = 0;
    while k < extensions.len()
        invariant
            k <= extensions@.len(),
            ev == extensions@.map_values(|e: &str| e@),
            forall|t: int| 0 <= t < k ==> ev[t] != ext@,
        decreases extensions@.len() - k,
    {
        if str_eq(extensions[k], ext) {
            assert(ev[k as int] == ext@);
            return true;
        }
        k = k + 1;
    }
    false
}

} // verus!
