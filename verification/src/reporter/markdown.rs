//! The markdown report. Writing it to a file or to stdout is left to the
//! caller.

use vstd::prelude::*;

use crate::deep_scan::context_extractor::{decimal, decimal_chars};
use crate::problems::schema::{Finding, ProblemKind, SourceHit};
use crate::supply_chain::typosquat::TyposquatWarning;
use crate::text::{chars_of, push_all, str_eq, string_of};

verus! {

/// The label of a finding's kind: supply chain, or the severity in capitals.
pub open spec fn kind_label_spec(f: Finding) -> Seq<char> {
    match f.problem.kind {
        ProblemKind::SupplyChain => "SUPPLY CHAIN"@,
        ProblemKind::Cve => if f.problem.severity@ == "critical"@ {
            "CRITICAL"@
        } else if f.problem.severity@ == "high"@ {
            "HIGH"@
        } else if f.problem.severity@ == "medium"@ {
            "MEDIUM"@
        } else if f.problem.severity@ == "low"@ {
            "LOW"@
        } else {
            "INFO"@
        },
    }
}

/// The ASCII lowercase letter `c` as a capital; any other character is
/// unchanged.
pub open spec fn ascii_upper_char(c: char) -> char {
    if 'a' <= c <= 'z' {
        ((c as u32) - 32) as char
    } else {
        c
    }
}

/// `s` with its ASCII lowercase letters as capitals.
pub open spec fn ascii_upper(s: Seq<char>) -> Seq<char> {
    s.map_values(|c: char| ascii_upper_char(c))
}

/// The kind label of a CVE finding is its severity label in capitals when
/// that is critical, high, medium or low, and `INFO` otherwise; a
/// supply-chain finding is labelled `SUPPLY CHAIN` whatever its severity.
pub proof fn law_cve_kind_is_severity_in_capitals(f: Finding)
    ensures
        f.problem.kind == ProblemKind::Cve && (f.problem.severity@ == "critical"@
            || f.problem.severity@ == "high"@ || f.problem.severity@ == "medium"@
            || f.problem.severity@ == "low"@) ==> kind_label_spec(f) == ascii_upper(f.problem.severity@),
        f.problem.kind == ProblemKind::Cve && !(f.problem.severity@ == "critical"@
            || f.problem.severity@ == "high"@ || f.problem.severity@ == "medium"@
            || f.problem.severity@ == "low"@) ==> kind_label_spec(f) == "INFO"@,
        f.problem.kind == ProblemKind::SupplyChain ==> kind_label_spec(f) == "SUPPLY CHAIN"@,
{
    reveal_strlit("critical");
    reveal_strlit("high");
    reveal_strlit("medium");
    reveal_strlit("low");
    reveal_strlit("CRITICAL");
    reveal_strlit("HIGH");
    reveal_strlit("MEDIUM");
    reveal_strlit("LOW");
    assert(ascii_upper("critical"@) =~= "CRITICAL"@);
    assert(ascii_upper("high"@) =~= "HIGH"@);
    assert(ascii_upper("medium"@) =~= "MEDIUM"@);
    assert(ascii_upper("low"@) =~= "LOW"@);
}

/// The fixed version of a finding's problem, or a dash.
pub open spec fn fix_text(f: Finding) -> Seq<char> {
    match f.problem.fixed_in {
        Some(v) => v@,
        None => "—"@,
    }
}

/// One row of the findings table.
pub open spec fn table_row(f: Finding) -> Seq<char> {
    "| "@ + f.repo_name@ + " | "@ + kind_label_spec(f) + " | "@ + f.problem.id@ + " | "@ + f.package@
        + " | "@ + f.installed_version@ + " | "@ + fix_text(f) + " |\n"@
}

/// The rows of `fs[0..n)`.
pub open spec fn table_rows(fs: Seq<Finding>, n: int) -> Seq<char>
    decreases n,
{
    if n <= 0 {
        seq![]
    } else {
        table_rows(fs, n - 1) + table_row(fs[n - 1])
    }
}

/// The findings table, or nothing without findings.
pub open spec fn findings_table(fs: Seq<Finding>) -> Seq<char> {
    if fs.len() == 0 {
        seq![]
    } else {
        "| Repo | Kind | Problem | Package | Version | Fix |\n"@
            + "|------|------|---------|---------|---------|-----|\n"@ + table_rows(fs, fs.len() as int)
            + "\n"@
    }
}

/// One source location of a finding.
pub open spec fn hit_block(h: SourceHit) -> Seq<char> {
    "**`"@ + h.file@ + "` line "@ + decimal(h.line_number as nat) + "** ["@ + h.confidence@ + "]\n"@
        + "```\n"@ + h.line_content@ + "\n"@ + "```\n"@ + "> "@ + h.remediation@ + "\n\n"@
}

/// The source locations `hs[0..n)`.
pub open spec fn hit_blocks(hs: Seq<SourceHit>, n: int) -> Seq<char>
    decreases n,
{
    if n <= 0 {
        seq![]
    } else {
        hit_blocks(hs, n - 1) + hit_block(hs[n - 1])
    }
}

/// The reference lines `refs[0..n)`.
pub open spec fn ref_lines(refs: Seq<String>, n: int) -> Seq<char>
    decreases n,
{
    if n <= 0 {
        seq![]
    } else {
        ref_lines(refs, n - 1) + "- "@ + refs[n - 1]@ + "\n"@
    }
}

/// The heading lines of a finding's details, up to its fix.
pub open spec fn detail_head(f: Finding) -> Seq<char> {
    "## "@ + f.repo_name@ + " — "@ + f.problem.id@ + "\n"@ + "**"@ + f.problem.title@ + "**\n\n"@
        + "- **Package**: `"@ + f.package@ + "` @ `"@ + f.installed_version@ + "`\n"@ + "- **Kind**: "@
        + kind_label_spec(f) + "\n"@ + (match f.problem.fixed_in {
        Some(v) => "- **Fix**: upgrade to `>="@ + v@ + "`\n"@,
        None => seq![],
    })
}

/// The source locations of a finding, or nothing without any.
pub open spec fn hits_section(hs: Seq<SourceHit>) -> Seq<char> {
    if hs.len() > 0 {
        "\n### Affected source locations\n\n"@ + hit_blocks(hs, hs.len() as int)
    } else {
        seq![]
    }
}

/// The details section of one finding.
pub open spec fn detail(f: Finding) -> Seq<char> {
    detail_head(f) + ref_lines(f.problem.references@, f.problem.references@.len() as int)
        + hits_section(f.source_hits@) + "\n"@
}

/// The details of `fs[0..n)`.
pub open spec fn details(fs: Seq<Finding>, n: int) -> Seq<char>
    decreases n,
{
    if n <= 0 {
        seq![]
    } else {
        details(fs, n - 1) + detail(fs[n - 1])
    }
}

/// One row of the typosquat table.
pub open spec fn typo_row(w: TyposquatWarning) -> Seq<char> {
    "| `"@ + w.scanned_name@ + "` | "@ + w.ecosystem@ + " | `"@ + w.similar_to@ + "` | "@ + decimal(
        w.edit_distance as nat,
    ) + " |\n"@
}

/// The typosquat rows of `ws[0..n)`.
pub open spec fn typo_rows(ws: Seq<TyposquatWarning>, n: int) -> Seq<char>
    decreases n,
{
    if n <= 0 {
        seq![]
    } else {
        typo_rows(ws, n - 1) + typo_row(ws[n - 1])
    }
}

/// The typosquat section, or nothing without warnings.
pub open spec fn typo_section(ws: Seq<TyposquatWarning>) -> Seq<char> {
    if ws.len() == 0 {
        seq![]
    } else {
        "## ⚠ Possible Typosquats\n\n"@ + "| Package | Ecosystem | Similar To | Edit Distance |\n"@
            + "|---------|-----------|------------|---------------|\n"@ + typo_rows(ws, ws.len() as int)
            + "\n"@
    }
}

/// The whole markdown report.
pub open spec fn report_text(fs: Seq<Finding>, ws: Seq<TyposquatWarning>) -> Seq<char> {
    "# dep-doctor Report\n\n"@ + if fs.len() == 0 && ws.len() == 0 {
        "✅ No known problems found.\n"@
    } else {
        findings_table(fs) + details(fs, fs.len() as int) + typo_section(ws)
    }
}

/// Appends the text of `s` to `out`.
fn put(out: &mut Vec<char>, s: &str)
    ensures
        final(out)@ == old(out)@ + s@,
{
    let c = chars_of(s);
    push_all(out, c.as_slice());
}

/// The label of a finding's kind.
pub fn kind_label(finding: &Finding) -> (r: &'static str)
    ensures
        r@ == kind_label_spec(*finding),
{
    match finding.problem.kind {
        ProblemKind::SupplyChain => "SUPPLY CHAIN",
        ProblemKind::Cve => {
            let s = finding.problem.severity.as_str();
            if str_eq(s, "critical") {
                "CRITICAL"
            } else if str_eq(s, "high") {
                "HIGH"
            } else if str_eq(s, "medium") {
                "MEDIUM"
            } else if str_eq(s, "low") {
                "LOW"
            } else {
                "INFO"
            }
        },
    }
}

/// Appends the findings table.
pub fn write_findings_table(md: &mut Vec<char>, findings: &[Finding])
    ensures
        final(md)@ == old(md)@ + findings_table(findings@),
{
    if findings.len() == 0 {
        return;
    }
    put(md, "| Repo | Kind | Problem | Package | Version | Fix |\n");
    put(md, "|------|------|---------|---------|---------|-----|\n");
    let ghost head = md@;
    let mut k: usize = 0;
    while k < findings.len()
        invariant
            k <= findings@.len(),
            md@ == head + table_rows(findings@, k as int),
        decreases findings@.len() - k,
    {
        let f = &findings[k];
        put(md, "| ");
        put(md, f.repo_name.as_str());
        put(md, " | ");
        put(md, kind_label(f));
        put(md, " | ");
        put(md, f.problem.id.as_str());
        put(md, " | ");
        put(md, f.package.as_str());
        put(md, " | ");
        put(md, f.installed_version.as_str());
        put(md, " | ");
        match &f.problem.fixed_in {
            Some(v) => put(md, v.as_str()),
            None => put(md, "—"),
        }
        put(md, " |\n");
        assert(md@ =~= head + table_rows(findings@, k + 1));
        k = k + 1;
    }
    put(md, "\n");
    assert(md@ =~= old(md)@ + findings_table(findings@));
}

/// Appends one source location.
fn write_hit(md: &mut Vec<char>, h: &SourceHit)
    ensures
        final(md)@ == old(md)@ + hit_block(*h),
{
    put(md, "**`");
    put(md, h.file.as_str());
    put(md, "` line ");
    let num = decimal_chars(h.line_number);
    push_all(md, num.as_slice());
    put(md, "** [");
    put(md, h.confidence.as_str());
    put(md, "]\n");
    put(md, "```\n");
    put(md, h.line_content.as_str());
    put(md, "\n");
    put(md, "```\n");
    put(md, "> ");
    put(md, h.remediation.as_str());
    put(md, "\n\n");
    assert(md@ =~= old(md)@ + hit_block(*h));
}

/// Appends the heading lines of a finding's details.
fn write_detail_head(md: &mut Vec<char>, f: &Finding)
    ensures
        final(md)@ == old(md)@ + detail_head(*f),
{
    put(md, "## ");
    put(md, f.repo_name.as_str());
    put(md, " — ");
    put(md, f.problem.id.as_str());
    put(md, "\n");
    put(md, "**");
    put(md, f.problem.title.as_str());
    put(md, "**\n\n");
    put(md, "- **Package**: `");
    put(md, f.package.as_str());
    put(md, "` @ `");
    put(md, f.installed_version.as_str());
    put(md, "`\n");
    put(md, "- **Kind**: ");
    put(md, kind_label(f));
    put(md, "\n");
    match &f.problem.fixed_in {
        Some(v) => {
            put(md, "- **Fix**: upgrade to `>=");
            put(md, v.as_str());
            put(md, "`\n");
        },
        None => {},
    }
    assert(md@ =~= old(md)@ + detail_head(*f));
}

/// Appends one line per reference.
fn write_refs(md: &mut Vec<char>, refs: &Vec<String>)
    ensures
        final(md)@ == old(md)@ + ref_lines(refs@, refs@.len() as int),
{
    let mut k: usize = 0;
    while k < refs.len()
        invariant
            k <= refs@.len(),
            md@ == old(md)@ + ref_lines(refs@, k as int),
        decreases refs@.len() - k,
    {
        put(md, "- ");
        put(md, refs[k].as_str());
        put(md, "\n");
        assert(md@ =~= old(md)@ + ref_lines(refs@, k + 1));
        k = k + 1;
    }
}

/// Appends the source locations of a finding.
fn write_hits(md: &mut Vec<char>, hits: &Vec<SourceHit>)
    ensures
        final(md)@ == old(md)@ + hits_section(hits@),
{
    if hits.len() == 0 {
        return;
    }
    put(md, "\n### Affected source locations\n\n");
    let ghost head = md@;
    let mut j: usize = 0;
    while j < hits.len()
        invariant
            j <= hits@.len(),
            md@ == head + hit_blocks(hits@, j as int),
        decreases hits@.len() - j,
    {
        write_hit(md, &hits[j]);
        assert(md@ =~= head + hit_blocks(hits@, j + 1));
        j = j + 1;
    }
    assert(md@ =~= old(md)@ + hits_section(hits@));
}

/// Appends the details section of one finding.
fn write_detail(md: &mut Vec<char>, f: &Finding)
    ensures
        final(md)@ == old(md)@ + detail(*f),
{
    write_detail_head(md, f);
    write_refs(md, &f.problem.references);
    write_hits(md, &f.source_hits);
    put(md, "\n");
    assert(md@ =~= old(md)@ + detail(*f));
}

/// Appends the details of every finding.
pub fn write_finding_details(md: &mut Vec<char>, findings: &[Finding])
    ensures
        final(md)@ == old(md)@ + details(findings@, findings@.len() as int),
{
    let mut k: usize = 0;
    while k < findings.len()
        invariant
            k <= findings@.len(),
            md@ == old(md)@ + details(findings@, k as int),
        decreases findings@.len() - k,
    {
        write_detail(md, &findings[k]);
        assert(md@ =~= old(md)@ + details(findings@, k + 1));
        k = k + 1;
    }
}

/// Appends the typosquat section.
pub fn write_typosquat_section(md: &mut Vec<char>, warnings: &[TyposquatWarning])
    ensures
        final(md)@ == old(md)@ + typo_section(warnings@),
{
    if warnings.len() == 0 {
        return;
    }
    put(md, "## ⚠ Possible Typosquats\n\n");
    put(md, "| Package | Ecosystem | Similar To | Edit Distance |\n");
    put(md, "|---------|-----------|------------|---------------|\n");
    let ghost head = md@;
    let mut k: usize = 0;
    while k < warnings.len()
        invariant
            k <= warnings@.len(),
            md@ == head + typo_rows(warnings@, k as int),
        decreases warnings@.len() - k,
    {
        let w = &warnings[k];
        put(md, "| `");
        put(md, w.scanned_name.as_str());
        put(md, "` | ");
        put(md, w.ecosystem.as_str());
        put(md, " | `");
        put(md, w.similar_to.as_str());
        put(md, "` | ");
        let num = decimal_chars(w.edit_distance);
        push_all(md, num.as_slice());
        put(md, " |\n");
        assert(md@ =~= head + typo_rows(warnings@, k + 1));
        k = k + 1;
    }
    put(md, "\n");
    assert(md@ =~= old(md)@ + typo_section(warnings@));
}

/// The markdown report: a title, then either a note that nothing was
/// found, or the findings table, the details of each finding, and the
/// typosquat warnings.
pub fn render(findings: &[Finding], typosquat_warnings: &[TyposquatWarning]) -> (r: String)
    ensures
        r@ == report_text(findings@, typosquat_warnings@),
{
    let mut md: Vec<char> = Vec::new();
    put(&mut md, "# dep-doctor Report\n\n");
    if findings.len() == 0 && typosquat_warnings.len() == 0 {
        put(&mut md, "✅ No known problems found.\n");
    } else {
        write_findings_table(&mut md, findings);
        write_finding_details(&mut md, findings);
        write_typosquat_section(&mut md, typosquat_warnings);
    }
    assert(md@ =~= report_text(findings@, typosquat_warnings@));
    string_of(md.as_slice())
}

} // verus!
