//! Which changed files trigger a re-scan in watch mode. Watching the file
//! system is left to the caller.

use vstd::prelude::*;

use crate::text::str_eq;

verus! {

/// The manifest file names watched for changes.
pub open spec fn watched_manifests() -> Seq<Seq<char>> {
    seq![
        "package.json"@,
        "package-lock.json"@,
        "requirements.txt"@,
        "pyproject.toml"@,
        "go.mod"@,
        "go.sum"@,
        "Cargo.toml"@,
        "Cargo.lock"@,
    ]
}

/// Whether a changed path, given by its last component, is a watched
/// manifest (one without a name is not).
pub fn is_manifest_path(file_name: Option<&str>) -> (r: bool)
    ensures
        r == (file_name matches Some(n) && watched_manifests().contains(n@)),
{
    match file_name {
        None => false,
        Some(n) => {
            let names = [
                "package.json",
                "package-lock.json",
                "requirements.txt",
                "pyproject.toml",
                "go.mod",
                "go.sum",
                "Cargo.toml",
                "Cargo.lock",
            ];
            let mut k: usize = 0;
            while k < 8
                invariant
                    file_name == Some(n),
                    k <= 8,
                    names@.map_values(|s: &str| s@) == watched_manifests(),
                    forall|t: int| 0 <= t < k ==> watched_manifests()[t] != n@,
                decreases 8 - k,
            {
                if str_eq(names[k], n) {
                    assert(watched_manifests()[k as int] == n@);
                    assert(watched_manifests().contains(n@));
                    return true;
                }
                k = k + 1;
            }
            false
        },
    }
}

/// Whether one change event calls for a re-scan.
pub open spec fn triggers_rescan(e: (bool, Option<String>)) -> bool {
    e.0 && match e.1 {
        Some(n) => watched_manifests().contains(n@),
        None => false,
    }
}

/// Whether a batch of change events (kind is "any change", and the changed
/// path's last component) calls for a re-scan: some event of kind "any" is
/// about a watched manifest.
pub fn needs_rescan(events: &[(bool, Option<String>)]) -> (r: bool)
    ensures
        r == exists|i: int| 0 <= i < events@.len() && triggers_rescan(#[trigger] events@[i]),
{
    let mut k: usize = 0;
    while k < events.len()
        invariant
            k <= events@.len(),
            forall|t: int| 0 <= t < k ==> !triggers_rescan(#[trigger] events@[t]),
        decreases events@.len() - k,
    {
        let name: Option<&str> = match &events[k].1 {
            Some(s) => Some(s.as_str()),
            None => None,
        };
        if events[k].0 && is_manifest_path(name) {
            assert(triggers_rescan(events@[k as int]));
            return true;
        }
        k = k + 1;
    }
    false
}

} // verus!
