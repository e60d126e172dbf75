//! Which directories count as repos, what they are called, and the order
//! they are scanned in. Listing directories and testing for files are left
//! to the caller.

use vstd::prelude::*;

use crate::text::{chars_of, owned, str_eq};

verus! {

/// A discovered repo within the root scan directory.
#[derive(Debug)]
pub struct Repo {
    pub name: String,
    pub path: String,
}

/// The manifest files whose presence makes a directory a repo.
pub open spec fn repo_manifests() -> Seq<Seq<char>> {
    seq!["package.json"@, "requirements.txt"@, "pyproject.toml"@, "go.mod"@, "Cargo.toml"@]
}

/// The manifest files whose presence makes a directory a repo.
pub fn repo_manifest_files() -> (r: Vec<&'static str>)
    ensures
        r@.map_values(|s: &str| s@) == repo_manifests(),
{
    let r = vec!["package.json", "requirements.txt", "pyproject.toml", "go.mod", "Cargo.toml"];
    assert(r@.map_values(|s: &str| s@) =~= repo_manifests());
    r
}

/// Whether a directory of this name is skipped: hidden, or a dependency or
/// build folder.
pub open spec fn hidden_or_ignored(name: Seq<char>) -> bool {
    (name.len() > 0 && name[0] == '.') || name == "node_modules"@ || name == "vendor"@ || name
        == "target"@
}

/// Whether a directory with this last path component is skipped (one
/// without a name is not).
pub fn is_hidden_or_ignored(file_name: Option<&str>) -> (r: bool)
    ensures
        r == (file_name matches Some(n) && hidden_or_ignored(n@)),
{
    match file_name {
        Some(n) => {
            let cs = chars_of(n);
            (cs.len() > 0 && cs[0] == '.') || str_eq(n, "node_modules") || str_eq(n, "vendor")
                || str_eq(n, "target")
        },
        None => false,
    }
}

/// The name of a repo: the last component of its path, or `unknown`.
pub fn dir_name(file_name: Option<&str>) -> (r: String)
    ensures
        r@ == match file_name {
            Some(n) => n@,
            None => "unknown"@,
        },
{
    match file_name {
        Some(n) => owned(n),
        None => owned("unknown"),
    }
}

/// Whether `a` comes strictly before `b` in lexicographic order of
/// characters (the order of `str::cmp`).
pub open spec fn name_lt(a: Seq<char>, b: Seq<char>) -> bool
    decreases a.len(),
{
    if b.len() == 0 {
        false
    } else if a.len() == 0 {
        true
    } else if a[0] != b[0] {
        a[0] < b[0]
    } else {
        name_lt(a.drop_first(), b.drop_first())
    }
}

/// Whether `a` comes strictly before `b` by name.
pub fn lt_exec(a: &str, b: &str) -> (r: bool)
    ensures
        r == name_lt(a@, b@),
{
    let x = chars_of(a);
    let y = chars_of(b);
    let mut i: usize = 0;
    assert(x@.subrange(0, x@.len() as int) =~= x@);
    assert(y@.subrange(0, y@.len() as int) =~= y@);
    while i < x.len() && i < y.len() && x[i] == y[i]
        invariant
            i <= x@.len(),
            i <= y@.len(),
            name_lt(a@, b@) == name_lt(x@.subrange(i as int, x@.len() as int), y@.subrange(i as int, y@.len() as int)),
            x@ == a@,
            y@ == b@,
        decreases x@.len() - i,
    {
        assert(x@.subrange(i as int, x@.len() as int).drop_first() =~= x@.subrange(i + 1, x@.len() as int));
        assert(y@.subrange(i as int, y@.len() as int).drop_first() =~= y@.subrange(i + 1, y@.len() as int));
        i = i + 1;
    }
    if i == y.len() {
        false
    } else if i == x.len() {
        true
    } else {
        x[i] < y[i]
    }
}

/// Whether the repos are in order of name.
pub open spec fn sorted_by_name(rs: Seq<Repo>) -> bool {
    forall|i: int, j: int| 0 <= i < j < rs.len() ==> !name_lt(#[trigger] rs[j].name@, #[trigger] rs[i].name@)
}

/// Name order is total and asymmetric.
pub proof fn lemma_lt_total(a: Seq<char>, b: Seq<char>)
    ensures
        !name_lt(a, b) ==> (name_lt(b, a) || a == b),
        !(name_lt(a, b) && name_lt(b, a)),
    decreases a.len(),
{
    if a.len() > 0 && b.len() > 0 && a[0] == b[0] {
        lemma_lt_total(a.drop_first(), b.drop_first());
        if a.drop_first() == b.drop_first() {
            assert(a.len() == b.len());
            assert forall|i: int| 0 <= i < a.len() implies a[i] == b[i] by {
                if i > 0 {
                    assert(a[i] == a.drop_first()[i - 1]);
                    assert(b[i] == b.drop_first()[i - 1]);
                }
            }
            assert(a =~= b);
        }
    } else if a.len() == 0 && b.len() == 0 {
        assert(a =~= b);
    }
}

/// "Not after" in name order is transitive.
pub proof fn lemma_lt_trans(a: Seq<char>, b: Seq<char>, c: Seq<char>)
    requires
        !name_lt(b, a),
        !name_lt(c, b),
    ensures
        !name_lt(c, a),
    decreases a.len(),
{
    lemma_lt_total(a, b);
    lemma_lt_total(b, c);
    if a.len() > 0 && b.len() > 0 && c.len() > 0 && a[0] == b[0] && b[0] == c[0] {
        lemma_lt_trans(a.drop_first(), b.drop_first(), c.drop_first());
    }
}

/// Whether a repo has the name `n`.
pub open spec fn named(n: Seq<char>) -> spec_fn(Repo) -> bool {
    |r: Repo| r.name@ == n
}

/// Inserting `x` at `j`, where no later repo shares its name, adds `x` at
/// the end of the repos of its name and changes no other name's repos.
proof fn lemma_insert_keeps_name_order(s: Seq<Repo>, j: int, x: Repo, n: Seq<char>)
    requires
        0 <= j <= s.len(),
        forall|t: int| j <= t < s.len() ==> (#[trigger] s[t]).name@ != x.name@,
    ensures
        s.insert(j, x).filter(named(n)) == if x.name@ == n {
            s.filter(named(n)).push(x)
        } else {
            s.filter(named(n))
        },
{
    let p = named(n);
    let a = s.take(j);
    let b = s.skip(j);
    assert(s =~= a + b);
    assert(s.insert(j, x) =~= a + seq![x] + b);
    Seq::filter_distributes_over_add(a, b, p);
    Seq::filter_distributes_over_add(a + seq![x], b, p);
    Seq::filter_distributes_over_add(a, seq![x], p);
    Seq::<Repo>::empty().lemma_filter_push(x, p);
    assert(Seq::<Repo>::empty().push(x) =~= seq![x]);
    assert(Seq::<Repo>::empty().filter(p) =~= Seq::<Repo>::empty()) by {
        reveal(Seq::filter);
    }
    if x.name@ == n {
        assert(b.all(|r: Repo| !p(r))) by {
            assert forall|t: int| 0 <= t < b.len() implies !p(#[trigger] b[t]) by {
                assert(b[t] == s[j + t]);
            }
        }
        b.lemma_all_neg_filter_empty(p);
        assert(b.filter(p) =~= Seq::<Repo>::empty());
        assert(a.filter(p) + b.filter(p) =~= a.filter(p));
        assert(a.filter(p) + seq![x] + b.filter(p) =~= a.filter(p).push(x));
    } else {
        assert(a.filter(p) + Seq::<Repo>::empty() =~= a.filter(p));
    }
}

/// The repos in order of name; repos of one name keep their order.
pub fn sort_repos(repos: Vec<Repo>) -> (r: Vec<Repo>)
    ensures
        sorted_by_name(r@),
        forall|n: Seq<char>| #[trigger] r@.filter(named(n)) == repos@.filter(named(n)),
        r@.to_multiset() == repos@.to_multiset(),
{
    let ghost input = repos@;
    let n0 = repos.len();
    let mut rest = repos;
    let mut out: Vec<Repo> = Vec::new();
    let mut k: usize = 0;
    assert(out@ =~= input.take(0));
    while rest.len() > 0
        invariant
            k + rest@.len() == n0,
            n0 == input.len(),
            forall|t: int| 0 <= t < rest@.len() ==> #[trigger] rest@[t] == input[k + t],
            sorted_by_name(out@),
            out@.to_multiset() == input.take(k as int).to_multiset(),
            forall|n: Seq<char>| #[trigger] out@.filter(named(n)) == input.take(k as int).filter(named(n)),
        decreases rest@.len(),
    {
        let x = rest.remove(0);
        assert(x == input[k as int]);
        let mut j: usize = 0;
        while j < out.len() && !lt_exec(x.name.as_str(), out[j].name.as_str())
            invariant
                j <= out@.len(),
                forall|t: int| 0 <= t < j ==> !name_lt(x.name@, (#[trigger] out@[t]).name@),
            decreases out@.len() - j,
        {
            j = j + 1;
        }
        let ghost before = out@;
        proof {
            vstd::seq_lib::to_multiset_insert(before, j as int, x);
            assert(input.take(k + 1) =~= input.take(k as int).push(x));
            vstd::seq_lib::to_multiset_build(input.take(k as int), x);
        }
        proof {
            assert forall|t: int| j <= t < before.len() implies (#[trigger] before[t]).name@ != x.name@ by {
                if before[t].name@ == x.name@ {
                    lemma_lt_total(before[j as int].name@, before[t].name@);
                    if t > j {
                        assert(!name_lt(before[t].name@, before[j as int].name@));
                    }
                }
            }
            assert forall|n: Seq<char>| #[trigger] before.insert(j as int, x).filter(named(n))
                == input.take(k + 1).filter(named(n)) by {
                lemma_insert_keeps_name_order(before, j as int, x, n);
                input.take(k as int).lemma_filter_push(x, named(n));
            }
        }
        out.insert(j, x);
        assert(out@ =~= before.insert(j as int, x));
        proof {
            assert forall|a: int, b: int| 0 <= a < b < out@.len() implies !name_lt(
                #[trigger] out@[b].name@,
                #[trigger] out@[a].name@,
            ) by {
                if b < j {
                    assert(out@[a] == before[a] && out@[b] == before[b]);
                } else if b == j {
                    assert(out@[a] == before[a]);
                    lemma_lt_total(before[a].name@, x.name@);
                } else if a == j {
                    assert(out@[b] == before[b - 1]);
                    if j < before.len() {
                        assert(name_lt(x.name@, before[j as int].name@));
                        lemma_lt_total(x.name@, before[j as int].name@);
                        lemma_lt_total(before[j as int].name@, before[j as int].name@);
                        if b - 1 > j {
                            assert(!name_lt(before[b - 1].name@, before[j as int].name@));
                        }
                        lemma_lt_trans(x.name@, before[j as int].name@, before[b - 1].name@);
                    }
                } else if a < j {
                    assert(out@[a] == before[a] && out@[b] == before[b - 1]);
                } else {
                    assert(out@[a] == before[a - 1] && out@[b] == before[b - 1]);
                }
            }
        }
        k = k + 1;
    }
    assert(input.take(n0 as int) =~= input);
    assert(input.take(k as int) == input);
    out
}

} // verus!
