pub mod cargo;
pub mod go;
pub mod npm;
pub mod pip;

use vstd::prelude::*;

use crate::fixer::go::{go_edit, go_version};
use crate::fixer::npm::{json_changed_from, json_rewrite_from, quoted};
use crate::fixer::pip::{pyproject_edit, req_edit};
use crate::deep_scan::context_extractor::{decimal, decimal_chars};
use crate::problems::schema::Finding;
use crate::scanner::manifest::pip::pip_normal;
use crate::text::{
    any_edit, assemble, chars_of, edit_lines, ends_with_newline, lines, lines_of, lowercase, owned,
    reassemble, str_eq, string_of, to_lowercase,
};

verus! {

/// The manifests whose versions are rewritten line by line.
#[derive(Clone, Copy, Debug, PartialEq, Eq)]
pub enum LineFixer {
    GoMod,
    CargoToml,
    Requirements,
    Pyproject,
}

/// The per-line edit of each manifest kind, for package `name` and version `new`.
pub open spec fn line_fix(kind: LineFixer, name: Seq<char>, new: Seq<char>) -> spec_fn(
    Seq<char>,
) -> Option<Seq<char>> {
    match kind {
        LineFixer::GoMod => go::go_edit(name, new),
        LineFixer::CargoToml => cargo::cargo_edit(name, new),
        LineFixer::Requirements => pip::req_edit(name, new),
        LineFixer::Pyproject => pip::pyproject_edit(name, new),
    }
}

fn fix_line(kind: LineFixer, line: &[char], name: &[char], new: &[char]) -> (r: Option<Vec<char>>)
    ensures
        r matches Some(x) ==> line_fix(kind, name@, new@)(line@) == Some(x@),
        r is None ==> line_fix(kind, name@, new@)(line@) is None,
{
    match kind {
        LineFixer::GoMod => go::go_line_exec(line, name, new),
        LineFixer::CargoToml => cargo::cargo_line_exec(line, name, new),
        LineFixer::Requirements => pip::req_fix_line_exec(line, name, new),
        LineFixer::Pyproject => pip::pyproject_line_exec(line, name, new),
    }
}

/// Rewrites `content` line by line with the edit of `kind`: returns the
/// reassembled text and whether some line was edited.
pub fn rewrite_lines(content: &[char], kind: LineFixer, name: &[char], new: &[char]) -> (r: (
    Vec<char>,
    bool,
))
    ensures
        r.0@ == reassemble(edit_lines(lines(content@), line_fix(kind, name@, new@)), content@),
        r.1 == any_edit(lines(content@), line_fix(kind, name@, new@)),
{
    let ghost f = line_fix(kind, name@, new@);
    let ls = lines_of(content);
    let ghost lv = ls.deep_view();
    let mut out: Vec<Vec<char>> = Vec::new();
    let mut changed = false;
    let mut i: usize = 0;
    while i < ls.len()
        invariant
            lv == ls.deep_view(),
            lv == lines(content@),
            f == line_fix(kind, name@, new@),
            i <= ls@.len(),
            out.deep_view() == edit_lines(lv, f).take(i as int),
            changed == exists|j: int| 0 <= j < i && #[trigger] f(lv[j]) is Some,
        decreases ls@.len() - i,
    {
        let r = fix_line(kind, ls[i].as_slice(), name, new);
        let ghost before_out = out.deep_view();
        assert(ls[i as int].deep_view() == lv[i as int]);
        assert(ls[i as int]@ =~= lv[i as int]);
        match r {
            Some(x) => {
                assert(f(lv[i as int]) == Some(x@));
                assert(x.deep_view() =~= x@);
                out.push(x);
                changed = true;
                assert(out.deep_view() =~= before_out.push(edit_lines(lv, f)[i as int]));
            },
            None => {
                assert(f(lv[i as int]) is None);
                let y = ls[i].clone();
                assert(y.deep_view() =~= lv[i as int]);
                out.push(y);
                assert(out.deep_view() =~= before_out.push(edit_lines(lv, f)[i as int]));
            },
        }
        assert(edit_lines(lv, f).take(i + 1) =~= edit_lines(lv, f).take(i as int).push(
            edit_lines(lv, f)[i as int],
        ));
        i = i + 1;
    }
    assert(edit_lines(lv, f).take(ls@.len() as int) =~= edit_lines(lv, f));
    let ends = ends_with_newline(content);
    let joined = assemble(&out, ends);
    (joined, changed)
}

/// Line-based rewriting of text without `'\r'` that edits no line gives
/// the text back exactly.
pub proof fn law_rewrite_without_edit_is_identity(
    content: Seq<char>,
    kind: LineFixer,
    name: Seq<char>,
    new: Seq<char>,
)
    requires
        forall|k: int| 0 <= k < content.len() ==> content[k] != '\r',
        !any_edit(lines(content), line_fix(kind, name, new)),
    ensures
        reassemble(edit_lines(lines(content), line_fix(kind, name, new)), content) == content,
{
    crate::text::lemma_no_edit_identity(content, line_fix(kind, name, new));
}

// ── Manifests per ecosystem ───────────────────────────────────────────

/// The manifest files the fixers edit.
#[derive(Clone, Copy, Debug, PartialEq, Eq)]
pub enum ManifestFile {
    PackageJson,
    RequirementsTxt,
    PyprojectToml,
    GoMod,
    CargoToml,
}

/// The manifests a fixer edits for an ecosystem, in the order it edits
/// them; none for an ecosystem without a fixer.
pub open spec fn manifests_spec(ecosystem: Seq<char>) -> Seq<ManifestFile> {
    if ecosystem == "npm"@ {
        seq![ManifestFile::PackageJson]
    } else if ecosystem == "pip"@ {
        seq![ManifestFile::RequirementsTxt, ManifestFile::PyprojectToml]
    } else if ecosystem == "go"@ {
        seq![ManifestFile::GoMod]
    } else if ecosystem == "cargo"@ {
        seq![ManifestFile::CargoToml]
    } else {
        seq![]
    }
}

/// The rewritten text of a manifest with `package` moved to `new_version`,
/// and whether anything changed.
pub open spec fn rewrite_spec(kind: ManifestFile, content: Seq<char>, package: Seq<char>, new_version: Seq<char>) -> (Seq<char>, bool) {
    match kind {
        ManifestFile::PackageJson => (
            json_rewrite_from(content, quoted(package), new_version, 0),
            json_changed_from(content, quoted(package), 0),
        ),
        ManifestFile::RequirementsTxt => (
            reassemble(edit_lines(lines(content), req_edit(pip_normal(package), new_version)), content),
            any_edit(lines(content), req_edit(pip_normal(package), new_version)),
        ),
        ManifestFile::PyprojectToml => (
            reassemble(edit_lines(lines(content), pyproject_edit(pip_normal(package), new_version)), content),
            any_edit(lines(content), pyproject_edit(pip_normal(package), new_version)),
        ),
        ManifestFile::GoMod => (
            reassemble(edit_lines(lines(content), go_edit(package, go_version(new_version))), content),
            any_edit(lines(content), go_edit(package, go_version(new_version))),
        ),
        ManifestFile::CargoToml => (
            reassemble(edit_lines(lines(content), cargo::cargo_edit(package, new_version)), content),
            any_edit(lines(content), cargo::cargo_edit(package, new_version)),
        ),
    }
}

/// The manifests the fixer of `ecosystem` edits.
pub fn manifests_for(ecosystem: &str) -> (r: Vec<ManifestFile>)
    ensures
        r@ == manifests_spec(ecosystem@),
{
    if str_eq(ecosystem, "npm") {
        vec![ManifestFile::PackageJson]
    } else if str_eq(ecosystem, "pip") {
        vec![ManifestFile::RequirementsTxt, ManifestFile::PyprojectToml]
    } else if str_eq(ecosystem, "go") {
        vec![ManifestFile::GoMod]
    } else if str_eq(ecosystem, "cargo") {
        vec![ManifestFile::CargoToml]
    } else {
        Vec::new()
    }
}

impl ManifestFile {
    /// The manifest's file name, relative to the repo.
    pub fn file_name(&self) -> (r: &'static str)
        ensures
            r@ == match *self {
                ManifestFile::PackageJson => "package.json"@,
                ManifestFile::RequirementsTxt => "requirements.txt"@,
                ManifestFile::PyprojectToml => "pyproject.toml"@,
                ManifestFile::GoMod => "go.mod"@,
                ManifestFile::CargoToml => "Cargo.toml"@,
            },
    {
        match self {
            ManifestFile::PackageJson => "package.json",
            ManifestFile::RequirementsTxt => "requirements.txt",
            ManifestFile::PyprojectToml => "pyproject.toml",
            ManifestFile::GoMod => "go.mod",
            ManifestFile::CargoToml => "Cargo.toml",
        }
    }

    /// Rewrites the text of this manifest with `package` moved to
    /// `new_version`; says whether anything changed.
    pub fn rewrite(&self, content: &str, package: &str, new_version: &str) -> (r: (String, bool))
        ensures
            (r.0@, r.1) == rewrite_spec(*self, content@, package@, new_version@),
    {
        match self {
            ManifestFile::PackageJson => npm::replace_json_dep_version(content, package, new_version),
            ManifestFile::RequirementsTxt => pip::fix_requirements_txt(content, package, new_version),
            ManifestFile::PyprojectToml => pip::fix_pyproject_toml(content, package, new_version),
            ManifestFile::GoMod => go::replace_go_mod_version(content, package, new_version),
            ManifestFile::CargoToml => cargo::replace_cargo_version(content, package, new_version),
        }
    }
}

// ── Applying fixes ────────────────────────────────────────────────────

/// Outcome of a single fix attempt.
#[derive(Debug)]
pub struct FixResult {
    pub problem_id: String,
    pub package: String,
    pub ecosystem: String,
    pub old_version: String,
    pub new_version: String,
    pub applied: bool,
    pub reason: Option<String>,
}

/// A fix to attempt: move `package` from `old_version` to `new_version`.
#[derive(Debug)]
pub struct FixCandidate {
    pub problem_id: String,
    pub package: String,
    pub old_version: String,
    pub new_version: String,
}

/// The candidates of one manifest directory and ecosystem, in order.
#[derive(Debug)]
pub struct FixGroup {
    pub repo_path: String,
    pub ecosystem: String,
    pub candidates: Vec<FixCandidate>,
}

/// What `apply_fixes` decides before any file is touched: the results of
/// the findings that cannot be fixed, and the fixes to attempt, grouped by
/// (repo path, ecosystem in lowercase) in order of first appearance.
#[derive(Debug)]
pub struct FixPlan {
    pub results: Vec<FixResult>,
    pub pending: Vec<FixGroup>,
}

/// What happened when a fixer edited the manifests of a repo.
#[derive(Debug)]
pub enum FixOutcome {
    /// A manifest was rewritten.
    Changed,
    /// No manifest mentions the package.
    NotFound,
    /// Reading or writing a manifest failed, with the error's message.
    Failed(String),
}

/// A fix result as plain values: problem id, package, ecosystem, old and
/// new version, whether it was applied, and why not.
pub type FixResultModel = (Seq<char>, Seq<char>, Seq<char>, Seq<char>, Seq<char>, bool, Option<Seq<char>>);

/// A candidate as plain values: problem id, package, old and new version.
pub type CandidateModel = (Seq<char>, Seq<char>, Seq<char>, Seq<char>);

/// A group as plain values: (repo path, ecosystem) and its candidates.
pub type GroupModel = ((Seq<char>, Seq<char>), Seq<CandidateModel>);

/// The view of an optional string.
pub open spec fn opt_chars(o: Option<String>) -> Option<Seq<char>> {
    match o {
        Some(s) => Some(s@),
        None => None,
    }
}

impl View for FixResult {
    type V = FixResultModel;

    open spec fn view(&self) -> FixResultModel {
        (
            self.problem_id@,
            self.package@,
            self.ecosystem@,
            self.old_version@,
            self.new_version@,
            self.applied,
            opt_chars(self.reason),
        )
    }
}

impl View for FixCandidate {
    type V = CandidateModel;

    open spec fn view(&self) -> CandidateModel {
        (self.problem_id@, self.package@, self.old_version@, self.new_version@)
    }
}

impl View for FixGroup {
    type V = GroupModel;

    open spec fn view(&self) -> GroupModel {
        ((self.repo_path@, self.ecosystem@), self.candidates@.map_values(|c: FixCandidate| c@))
    }
}

/// The views of a sequence of results.
pub open spec fn result_views(rs: Seq<FixResult>) -> Seq<FixResultModel> {
    rs.map_values(|r: FixResult| r@)
}

/// The views of a sequence of groups.
pub open spec fn group_views(gs: Seq<FixGroup>) -> Seq<GroupModel> {
    gs.map_values(|g: FixGroup| g@)
}

/// A finding cannot be fixed when its problem names no fixed version, or
/// an empty one.
pub open spec fn unfixable(f: Finding) -> bool {
    match f.problem.fixed_in {
        Some(v) => v@.len() == 0,
        None => true,
    }
}

/// The result of a finding that cannot be fixed.
pub open spec fn skipped_result(f: Finding) -> FixResultModel {
    (
        f.problem.id@,
        f.package@,
        f.problem.ecosystem@,
        f.installed_version@,
        seq![],
        false,
        Some("no fixed version known"@),
    )
}

/// The results of the unfixable findings among `fs[0..n)`, in order.
pub open spec fn skipped_results(fs: Seq<Finding>, n: int) -> Seq<FixResultModel>
    decreases n,
{
    if n <= 0 {
        seq![]
    } else if unfixable(fs[n - 1]) {
        skipped_results(fs, n - 1).push(skipped_result(fs[n - 1]))
    } else {
        skipped_results(fs, n - 1)
    }
}

/// The group key of a finding: its repo path and its ecosystem in lowercase.
pub open spec fn group_key(f: Finding) -> (Seq<char>, Seq<char>) {
    (f.repo_path@, lowercase(f.problem.ecosystem@))
}

/// The candidate of a fixable finding.
pub open spec fn candidate_of(f: Finding) -> CandidateModel {
    (f.problem.id@, f.package@, f.installed_version@, f.problem.fixed_in->0@)
}

/// The index of the first group with key `key`, from `j` on.
pub open spec fn group_index(gs: Seq<GroupModel>, key: (Seq<char>, Seq<char>), j: int) -> Option<int>
    decreases gs.len() - j,
{
    if j < 0 || j >= gs.len() {
        None
    } else if gs[j].0 == key {
        Some(j)
    } else {
        group_index(gs, key, j + 1)
    }
}

proof fn lemma_group_index(gs: Seq<GroupModel>, key: (Seq<char>, Seq<char>), j: int)
    requires
        0 <= j,
    ensures
        group_index(gs, key, j) matches Some(g) ==> j <= g < gs.len() && gs[g].0 == key,
    decreases gs.len() - j,
{
    if 0 <= j < gs.len() && gs[j].0 != key {
        lemma_group_index(gs, key, j + 1);
    }
}

/// The groups of the fixable findings among `fs[0..n)`: each finding joins
/// the group of its key, made when its key first appears.
pub open spec fn fix_groups(fs: Seq<Finding>, n: int) -> Seq<GroupModel>
    decreases n,
{
    if n <= 0 {
        seq![]
    } else {
        let prev = fix_groups(fs, n - 1);
        let f = fs[n - 1];
        if unfixable(f) {
            prev
        } else {
            let key = group_key(f);
            match group_index(prev, key, 0) {
                Some(g) => prev.update(g, (key, prev[g].1.push(candidate_of(f)))),
                None => prev.push((key, seq![candidate_of(f)])),
            }
        }
    }
}

/// Whether `ecosystem` has a fixer.
pub open spec fn supported_ecosystem(ecosystem: Seq<char>) -> bool {
    ecosystem == "npm"@ || ecosystem == "pip"@ || ecosystem == "go"@ || ecosystem == "cargo"@
}

/// The result of attempting candidate `c` in `ecosystem` with the given
/// outcome; an ecosystem without a fixer is reported whatever the outcome.
pub open spec fn single_fix_result(ecosystem: Seq<char>, c: CandidateModel, outcome: FixOutcome) -> FixResultModel {
    if !supported_ecosystem(ecosystem) {
        (c.0, c.1, ecosystem, c.2, c.3, false, Some("unsupported ecosystem: "@ + ecosystem))
    } else {
        match outcome {
            FixOutcome::Changed => (c.0, c.1, ecosystem, c.2, c.3, true, None),
            FixOutcome::NotFound => (c.0, c.1, ecosystem, c.2, c.3, false, Some("package not found in manifest"@)),
            FixOutcome::Failed(e) => (c.0, c.1, ecosystem, c.2, c.3, false, Some("error: "@ + e@)),
        }
    }
}

/// The group of `key` in `gs`, found from `j` on.
fn find_group(gs: &Vec<FixGroup>, repo_path: &str, ecosystem: &str) -> (r: Option<usize>)
    ensures
        r matches Some(g) ==> g < gs@.len() && group_index(group_views(gs@), (repo_path@, ecosystem@), 0)
            == Some(g as int),
        r is None ==> group_index(group_views(gs@), (repo_path@, ecosystem@), 0) is None,
{
    let ghost gv = group_views(gs@);
    let ghost key = (repo_path@, ecosystem@);
    let mut j: usize = 0;
    while j < gs.len()
        invariant
            j <= gs@.len(),
            gv == group_views(gs@),
            key == (repo_path@, ecosystem@),
            group_index(gv, key, 0) == group_index(gv, key, j as int),
        decreases gs@.len() - j,
    {
        if str_eq(gs[j].repo_path.as_str(), repo_path) && str_eq(gs[j].ecosystem.as_str(), ecosystem) {
            assert(gv[j as int].0 == key);
            return Some(j);
        }
        assert(gv[j as int].0 != key);
        j = j + 1;
    }
    None
}

/// Adds `c` at the end of the candidates of group `g`.
fn push_candidate(gs: &mut Vec<FixGroup>, g: usize, c: FixCandidate)
    requires
        g < old(gs)@.len(),
    ensures
        group_views(final(gs)@) == group_views(old(gs)@).update(
            g as int,
            (group_views(old(gs)@)[g as int].0, group_views(old(gs)@)[g as int].1.push(c@)),
        ),
{
    let ghost before = group_views(gs@);
    let ghost cv = c@;
    let mut slot = FixGroup { repo_path: String::new(), ecosystem: String::new(), candidates: Vec::new() };
    gs.set_and_swap(g, &mut slot);
    let ghost old_cands = slot.candidates@.map_values(|c: FixCandidate| c@);
    slot.candidates.push(c);
    assert(slot.candidates@.map_values(|c: FixCandidate| c@) =~= old_cands.push(cv));
    gs.set_and_swap(g, &mut slot);
    assert(group_views(gs@) =~= before.update(g as int, (before[g as int].0, before[g as int].1.push(cv))));
}

/// Decide the fixes for all findings: those whose problem names no fixed
/// version (or an empty one) get a result saying so; the others become
/// candidates grouped by (repo path, ecosystem in lowercase), so that each
/// manifest is edited per package.
pub fn apply_fixes(findings: &[Finding<'_>]) -> (r: FixPlan)
    ensures
        result_views(r.results@) == skipped_results(findings@, findings@.len() as int),
        group_views(r.pending@) == fix_groups(findings@, findings@.len() as int),
{
    let mut results: Vec<FixResult> = Vec::new();
    let mut groups: Vec<FixGroup> = Vec::new();
    let mut i: usize = 0;
    while i < findings.len()
        invariant
            i <= findings@.len(),
            result_views(results@) == skipped_results(findings@, i as int),
            group_views(groups@) == fix_groups(findings@, i as int),
        decreases findings@.len() - i,
    {
        let f = &findings[i];
        let fixed = match &f.problem.fixed_in {
            Some(v) => if v.as_str().is_empty() {
                None
            } else {
                Some(v)
            },
            None => None,
        };
        match fixed {
            None => {
                assert(unfixable(*f));
                let ghost before = result_views(results@);
                let res = FixResult {
                    problem_id: owned(f.problem.id.as_str()),
                    package: owned(f.package.as_str()),
                    ecosystem: owned(f.problem.ecosystem.as_str()),
                    old_version: owned(f.installed_version.as_str()),
                    new_version: String::new(),
                    applied: false,
                    reason: Some(owned("no fixed version known")),
                };
                assert(res@ == skipped_result(*f));
                results.push(res);
                assert(result_views(results@) =~= before.push(skipped_result(*f)));
            },
            Some(v) => {
                assert(!unfixable(*f));
                assert(skipped_results(findings@, i + 1) == skipped_results(findings@, i as int));
                let eco = to_lowercase(f.problem.ecosystem.as_str());
                let cand = FixCandidate {
                    problem_id: owned(f.problem.id.as_str()),
                    package: owned(f.package.as_str()),
                    old_version: owned(f.installed_version.as_str()),
                    new_version: owned(v.as_str()),
                };
                assert(cand@ == candidate_of(*f));
                match find_group(&groups, f.repo_path.as_str(), eco.as_str()) {
                    Some(g) => {
                        let ghost before = group_views(groups@);
                        let ghost cv = cand@;
                        proof {
                            lemma_group_index(before, group_key(*f), 0);
                            assert(group_key(*f) == (f.repo_path@, eco@));
                            assert(group_index(before, group_key(*f), 0) == Some(g as int));
                            assert(before[g as int].0 == group_key(*f));
                        }
                        push_candidate(&mut groups, g, cand);
                        assert(cv == candidate_of(*f));
                        assert(group_views(groups@) == fix_groups(findings@, i + 1));
                    },
                    None => {
                        let ghost before = group_views(groups@);
                        let ghost cv = cand@;
                        let mut cands: Vec<FixCandidate> = Vec::new();
                        cands.push(cand);
                        let group = FixGroup { repo_path: owned(f.repo_path.as_str()), ecosystem: eco, candidates: cands };
                        assert(group@.1 =~= seq![cv]);
                        groups.push(group);
                        assert(group_views(groups@) =~= before.push((group_key(*f), seq![cv])));
                    },
                }
            },
        }
        i = i + 1;
    }
    FixPlan { results, pending: groups }
}

/// The result of attempting one candidate: the fixer's outcome for a
/// supported ecosystem, else a result saying the ecosystem has no fixer.
pub fn apply_single_fix(ecosystem: &str, c: &FixCandidate, outcome: FixOutcome) -> (r: FixResult)
    ensures
        r@ == single_fix_result(ecosystem@, c@, outcome),
{
    let supported = str_eq(ecosystem, "npm") || str_eq(ecosystem, "pip") || str_eq(ecosystem, "go")
        || str_eq(ecosystem, "cargo");
    let (applied, reason) = if !supported {
        let mut msg = chars_of("unsupported ecosystem: ");
        let ec = chars_of(ecosystem);
        crate::text::push_all(&mut msg, ec.as_slice());
        (false, Some(string_of(msg.as_slice())))
    } else {
        match outcome {
            FixOutcome::Changed => (true, None),
            FixOutcome::NotFound => (false, Some(owned("package not found in manifest"))),
            FixOutcome::Failed(e) => {
                let mut msg = chars_of("error: ");
                let ec = chars_of(e.as_str());
                crate::text::push_all(&mut msg, ec.as_slice());
                (false, Some(string_of(msg.as_slice())))
            },
        }
    };
    FixResult {
        problem_id: owned(c.problem_id.as_str()),
        package: owned(c.package.as_str()),
        ecosystem: owned(ecosystem),
        old_version: owned(c.old_version.as_str()),
        new_version: owned(c.new_version.as_str()),
        applied,
        reason,
    }
}

// ── Summary ───────────────────────────────────────────────────────────

/// The number of applied results among `rs[0..n)`.
pub open spec fn applied_count(rs: Seq<FixResult>, n: int) -> nat
    decreases n,
{
    if n <= 0 {
        0
    } else if rs[n - 1].applied {
        applied_count(rs, n - 1) + 1
    } else {
        applied_count(rs, n - 1)
    }
}

/// The summary lines of the applied results among `rs[0..n)`.
pub open spec fn applied_lines(rs: Seq<FixResult>, n: int) -> Seq<char>
    decreases n,
{
    if n <= 0 {
        seq![]
    } else if rs[n - 1].applied {
        applied_lines(rs, n - 1) + "  "@ + rs[n - 1].package@ + " ("@ + rs[n - 1].old_version@ + ") → "@
            + rs[n - 1].new_version@ + "\n"@
    } else {
        applied_lines(rs, n - 1)
    }
}

/// The summary lines of the skipped results among `rs[0..n)`.
pub open spec fn skipped_lines(rs: Seq<FixResult>, n: int) -> Seq<char>
    decreases n,
{
    if n <= 0 {
        seq![]
    } else if !rs[n - 1].applied {
        skipped_lines(rs, n - 1) + "  "@ + rs[n - 1].package@ + " — "@ + (match rs[n - 1].reason {
            Some(r) => r@,
            None => "unknown"@,
        }) + "\n"@
    } else {
        skipped_lines(rs, n - 1)
    }
}

/// The fix summary printed after `--fix`: nothing without results; else
/// the applied fixes, the skipped ones with their reasons, and the counts.
pub open spec fn summary_spec(rs: Seq<FixResult>) -> Seq<char> {
    let n = rs.len() as int;
    let a = applied_count(rs, n);
    if n == 0 {
        seq![]
    } else {
        "\n"@ + (if a > 0 {
            "\x1b[1;32m✓ Fixed "@ + decimal(a) + " finding(s):\x1b[0m\n"@ + applied_lines(rs, n)
        } else {
            seq![]
        }) + (if a < n {
            "\x1b[1;33m⚠ Skipped "@ + decimal((n - a) as nat) + " finding(s):\x1b[0m\n"@ + skipped_lines(rs, n)
        } else {
            seq![]
        }) + "\n\x1b[1mFixed "@ + decimal(a) + "/"@ + decimal(n as nat)
            + " findings.\x1b[0m Run your package manager's install/update command to apply lock file changes.\n"@
    }
}

/// Appends the text of `s` to `out`.
fn put(out: &mut Vec<char>, s: &str)
    ensures
        final(out)@ == old(out)@ + s@,
{
    let c = chars_of(s);
    crate::text::push_all(out, c.as_slice());
}

/// The human-readable fix summary (as printed to stdout).
pub fn summary_text(results: &[FixResult]) -> (r: String)
    ensures
        r@ == summary_spec(results@),
{
    let n = results.len();
    if n == 0 {
        return String::new();
    }
    let mut applied: usize = 0;
    let mut alines: Vec<char> = Vec::new();
    let mut slines: Vec<char> = Vec::new();
    let mut k: usize = 0;
    while k < n
        invariant
            k <= n == results@.len(),
            applied == applied_count(results@, k as int),
            applied <= k,
            alines@ == applied_lines(results@, k as int),
            slines@ == skipped_lines(results@, k as int),
        decreases n - k,
    {
        let r = &results[k];
        if r.applied {
            put(&mut alines, "  ");
            put(&mut alines, r.package.as_str());
            put(&mut alines, " (");
            put(&mut alines, r.old_version.as_str());
            put(&mut alines, ") → ");
            put(&mut alines, r.new_version.as_str());
            put(&mut alines, "\n");
            applied = applied + 1;
        } else {
            put(&mut slines, "  ");
            put(&mut slines, r.package.as_str());
            put(&mut slines, " — ");
            match &r.reason {
                Some(x) => put(&mut slines, x.as_str()),
                None => put(&mut slines, "unknown"),
            }
            put(&mut slines, "\n");
        }
        assert(alines@ =~= applied_lines(results@, k + 1));
        assert(slines@ =~= skipped_lines(results@, k + 1));
        k = k + 1;
    }
    let mut out: Vec<char> = Vec::new();
    put(&mut out, "\n");
    if applied > 0 {
        put(&mut out, "\x1b[1;32m✓ Fixed ");
        let d = decimal_chars(applied);
        crate::text::push_all(&mut out, d.as_slice());
        put(&mut out, " finding(s):\x1b[0m\n");
        crate::text::push_all(&mut out, alines.as_slice());
    }
    if applied < n {
        put(&mut out, "\x1b[1;33m⚠ Skipped ");
        let d = decimal_chars(n - applied);
        crate::text::push_all(&mut out, d.as_slice());
        put(&mut out, " finding(s):\x1b[0m\n");
        crate::text::push_all(&mut out, slines.as_slice());
    }
    put(&mut out, "\n\x1b[1mFixed ");
    let d1 = decimal_chars(applied);
    crate::text::push_all(&mut out, d1.as_slice());
    put(&mut out, "/");
    let d2 = decimal_chars(n);
    crate::text::push_all(&mut out, d2.as_slice());
    put(&mut out, " findings.\x1b[0m Run your package manager's install/update command to apply lock file changes.\n");
    assert(out@ =~= summary_spec(results@));
    string_of(out.as_slice())
}

/// The number of candidates over all groups.
pub open spec fn total_candidates(gs: Seq<GroupModel>) -> nat
    decreases gs.len(),
{
    if gs.len() == 0 {
        0
    } else {
        total_candidates(gs.drop_last()) + gs.last().1.len()
    }
}

proof fn lemma_total_update(gs: Seq<GroupModel>, g: int, x: GroupModel)
    requires
        0 <= g < gs.len(),
    ensures
        total_candidates(gs.update(g, x)) == total_candidates(gs) - gs[g].1.len() + x.1.len(),
    decreases gs.len(),
{
    if g < gs.len() - 1 {
        lemma_total_update(gs.drop_last(), g, x);
        assert(gs.update(g, x).drop_last() =~= gs.drop_last().update(g, x));
    } else {
        assert(gs.update(g, x).drop_last() =~= gs.drop_last());
    }
}

/// Every finding is planned exactly once: either it gets a result saying it
/// cannot be fixed, or it is one candidate of one group; and no two groups
/// share a (repo path, ecosystem) key.
pub proof fn law_each_finding_planned_once(fs: Seq<Finding>, n: int)
    requires
        0 <= n <= fs.len(),
    ensures
        skipped_results(fs, n).len() + total_candidates(fix_groups(fs, n)) == n,
        forall|a: int, b: int|
            0 <= a < b < fix_groups(fs, n).len() ==> (#[trigger] fix_groups(fs, n)[a]).0 != (
            #[trigger] fix_groups(fs, n)[b]).0,
    decreases n,
{
    if n > 0 {
        law_each_finding_planned_once(fs, n - 1);
        let prev = fix_groups(fs, n - 1);
        let f = fs[n - 1];
        if !unfixable(f) {
            let key = group_key(f);
            lemma_group_index(prev, key, 0);
            match group_index(prev, key, 0) {
                Some(g) => {
                    lemma_total_update(prev, g, (key, prev[g].1.push(candidate_of(f))));
                },
                None => {
                    lemma_group_index_none(prev, key, 0);
                    let cur = prev.push((key, seq![candidate_of(f)]));
                    assert(cur.drop_last() =~= prev);
                },
            }
        }
    }
}

proof fn lemma_group_index_none(gs: Seq<GroupModel>, key: (Seq<char>, Seq<char>), j: int)
    requires
        0 <= j,
        group_index(gs, key, j) is None,
    ensures
        forall|t: int| j <= t < gs.len() ==> #[trigger] gs[t].0 != key,
    decreases gs.len() - j,
{
    if j < gs.len() {
        lemma_group_index_none(gs, key, j + 1);
    }
}

} // verus!
