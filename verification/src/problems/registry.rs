use vstd::prelude::*;

use super::builtin::{cargo_rustls_mitm, npm_axios_csrf, npm_lodash_prototype, pip_requests_ssrf};
use crate::problems::schema::Problem;

verus! {

/// The ids of the built-in problems, in registry order.
pub open spec fn builtin_ids() -> Seq<Seq<char>> {
    seq![
        "npm-axios-csrf-ssrf-CVE-2023-45857"@,
        "npm-lodash-prototype-pollution-CVE-2019-10744"@,
        "pip-requests-redirect-credential-leak-CVE-2023-32681"@,
        "cargo-rustls-MitM-RUSTSEC-2024-0336"@,
    ]
}

/// The ecosystems of the built-in problems, in registry order.
pub open spec fn builtin_ecosystems() -> Seq<Seq<char>> {
    seq!["npm"@, "npm"@, "pip"@, "cargo"@]
}

/// Whether `p` is the record of the built-in problem at position `i`.
pub open spec fn is_builtin(i: int, p: Problem) -> bool {
    if i == 0 {
        npm_axios_csrf::is_problem(p)
    } else if i == 1 {
        npm_lodash_prototype::is_problem(p)
    } else if i == 2 {
        pip_requests_ssrf::is_problem(p)
    } else {
        i == 3 && cargo_rustls_mitm::is_problem(p)
    }
}

/// Returns every built-in problem definition: the axios, lodash, requests
/// and rustls problems, in that order, as each `problem()` builds it.
pub fn all_problems() -> (r: Vec<Problem>)
    ensures
        r@.len() == 4,
        forall|i: int| 0 <= i < 4 ==> is_builtin(i, #[trigger] r@[i]),
        forall|i: int| 0 <= i < 4 ==> (#[trigger] r@[i]).id@ == builtin_ids()[i],
        forall|i: int| 0 <= i < 4 ==> (#[trigger] r@[i]).ecosystem@ == builtin_ecosystems()[i],
{
    let a = npm_axios_csrf::problem();
    let b = npm_lodash_prototype::problem();
    let c = pip_requests_ssrf::problem();
    let d = cargo_rustls_mitm::problem();
    let r = vec![a, b, c, d];
    assert forall|i: int| 0 <= i < 4 implies is_builtin(i, #[trigger] r@[i]) && r@[i].id@ == builtin_ids()[i] && r@[i].ecosystem@ == builtin_ecosystems()[i] by {
        if i == 0 {
        } else if i == 1 {
        } else if i == 2 {
        } else {
        }
    }
    r
}

} // verus!
