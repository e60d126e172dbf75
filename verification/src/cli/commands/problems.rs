//! `problems list` and `problems show`: which problem records they report.
//! Printing them is left to the caller.

use vstd::prelude::*;

use crate::cli::args::{ecosystem_arg_name, EcosystemArg, ProblemsAction, ProblemsArgs};
use crate::problems::registry::{all_problems, builtin_ecosystems, builtin_ids, is_builtin};
use crate::problems::schema::Problem;
use crate::text::{lowercase, owned, str_eq, to_lowercase};

verus! {

/// What a `problems` command reports.
pub enum ProblemsReport {
    /// The listed problems, in registry order.
    List(Vec<Problem>),
    /// The problem asked for.
    Show(Problem),
    /// No problem has the id asked for.
    UnknownId(String),
}

/// Whether a problem of ecosystem `eco` is listed under the filter.
pub open spec fn listed(eco: Seq<char>, filter: Option<EcosystemArg>) -> bool {
    match filter {
        None => true,
        Some(e) => lowercase(eco) == ecosystem_arg_name(e),
    }
}

/// The positions, among the built-in problems `0..n`, of those the filter
/// lists, in registry order.
pub open spec fn listed_positions(filter: Option<EcosystemArg>, n: int) -> Seq<int>
    decreases n,
{
    if n <= 0 {
        seq![]
    } else if listed(builtin_ecosystems()[n - 1], filter) {
        listed_positions(filter, n - 1).push(n - 1)
    } else {
        listed_positions(filter, n - 1)
    }
}

/// Whether `ps` holds exactly the records of the built-in problems that the
/// filter lists, in registry order.
pub open spec fn is_listing(ps: Seq<Problem>, filter: Option<EcosystemArg>) -> bool {
    &&& ps.len() == listed_positions(filter, 4).len()
    &&& forall|k: int| 0 <= k < ps.len() ==> is_builtin(listed_positions(filter, 4)[k], #[trigger] ps[k])
}

/// The index of the first built-in problem with id `id`, from `j` on.
pub open spec fn builtin_index(id: Seq<char>, j: int) -> Option<int>
    decreases 4 - j,
{
    if j < 0 || j >= 4 {
        None
    } else if builtin_ids()[j] == id {
        Some(j)
    } else {
        builtin_index(id, j + 1)
    }
}

/// The known problems, filtered by ecosystem.
fn list(ecosystem: Option<EcosystemArg>) -> (r: Vec<Problem>)
    ensures
        is_listing(r@, ecosystem),
{
    let mut problems = all_problems();
    let ghost all = problems@;
    let mut out: Vec<Problem> = Vec::new();
    let mut k: usize = 0;
    while problems.len() > 0
        invariant
            k <= 4,
            problems@.len() == 4 - k,
            forall|t: int| 0 <= t < problems@.len() ==> #[trigger] problems@[t] == all[k + t],
            forall|i: int| 0 <= i < 4 ==> (#[trigger] all[i]).id@ == builtin_ids()[i],
            forall|i: int| 0 <= i < 4 ==> (#[trigger] all[i]).ecosystem@ == builtin_ecosystems()[i],
            forall|i: int| 0 <= i < 4 ==> is_builtin(i, #[trigger] all[i]),
            out@.len() == listed_positions(ecosystem, k as int).len(),
            forall|t: int| 0 <= t < out@.len() ==> is_builtin(listed_positions(ecosystem, k as int)[t], #[trigger] out@[t]),
        decreases problems@.len(),
    {
        let p = problems.remove(0);
        assert(p == all[k as int]);
        let keep = match &ecosystem {
            None => true,
            Some(e) => {
                let low = to_lowercase(p.ecosystem.as_str());
                str_eq(low.as_str(), e.name())
            },
        };
        if keep {
            out.push(p);
        }
        k = k + 1;
    }
    out
}

/// The known problem with the given id, if any.
fn show(id: &str) -> (r: Option<Problem>)
    ensures
        match builtin_index(id@, 0) {
            Some(i) => r matches Some(p) && is_builtin(i, p),
            None => r is None,
        },
{
    let mut problems = all_problems();
    let ghost all = problems@;
    let mut k: usize = 0;
    while problems.len() > 0
        invariant
            k <= 4,
            problems@.len() == 4 - k,
            forall|t: int| 0 <= t < problems@.len() ==> #[trigger] problems@[t] == all[k + t],
            forall|i: int| 0 <= i < 4 ==> (#[trigger] all[i]).id@ == builtin_ids()[i],
            forall|i: int| 0 <= i < 4 ==> is_builtin(i, #[trigger] all[i]),
            builtin_index(id@, 0) == builtin_index(id@, k as int),
        decreases problems@.len(),
    {
        let p = problems.remove(0);
        assert(p == all[k as int]);
        if str_eq(p.id.as_str(), id) {
            return Some(p);
        }
        k = k + 1;
    }
    None
}

/// Runs a `problems` command: the problems to list (those of the chosen
/// ecosystem, compared in lowercase, or all), or the problem to show, or
/// the unknown id.
pub fn run(args: ProblemsArgs) -> (r: ProblemsReport)
    ensures
        match args.action {
            ProblemsAction::List { ecosystem } => r matches ProblemsReport::List(ps) && is_listing(
                ps@,
                ecosystem,
            ),
            ProblemsAction::Show { id } => match builtin_index(id@, 0) {
                Some(i) => r matches ProblemsReport::Show(p) && is_builtin(i, p),
                None => r matches ProblemsReport::UnknownId(u) && u@ == id@,
            },
        },
{
    match args.action {
        ProblemsAction::List { ecosystem } => ProblemsReport::List(list(ecosystem)),
        ProblemsAction::Show { id } => match show(id.as_str()) {
            Some(p) => ProblemsReport::Show(p),
            None => ProblemsReport::UnknownId(id),
        },
    }
}

} // verus!
