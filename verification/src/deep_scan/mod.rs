//! Deep scan: looks for a problem's source patterns in the files of a repo.
//! Walking the directory tree and reading files is left to the caller; this
//! module decides which files and directories count and what a file's text
//! yields.

pub mod context_extractor;
pub mod file_walker;
pub mod pattern_matcher;

use vstd::prelude::*;

use crate::deep_scan::pattern_matcher::{hit_views, scan_content, scan_hits, HitModel};
use crate::problems::schema::{Problem, SourceHit, SourcePattern};
use crate::text::{lines, str_eq};

verus! {

/// The file extensions of a language tag.
pub open spec fn lang_extensions(lang: Seq<char>) -> Seq<Seq<char>> {
    if lang == "js"@ {
        seq!["js"@, "mjs"@, "cjs"@]
    } else if lang == "ts"@ {
        seq!["ts"@, "tsx"@]
    } else if lang == "py"@ {
        seq!["py"@]
    } else if lang == "go"@ {
        seq!["go"@]
    } else if lang == "rs"@ {
        seq!["rs"@]
    } else {
        seq![]
    }
}

/// The extensions of `langs[0..n)`, language by language.
pub open spec fn extensions_of(langs: Seq<Seq<char>>, n: int) -> Seq<Seq<char>>
    decreases n,
{
    if n <= 0 {
        seq![]
    } else {
        extensions_of(langs, n - 1) + lang_extensions(langs[n - 1])
    }
}

/// The extensions of one language tag.
fn extensions_for(lang: &str) -> (r: Vec<&'static str>)
    ensures
        r@.map_values(|e: &str| e@) == lang_extensions(lang@),
{
    let v: Vec<&'static str> = if str_eq(lang, "js") {
        vec!["js", "mjs", "cjs"]
    } else if str_eq(lang, "ts") {
        vec!["ts", "tsx"]
    } else if str_eq(lang, "py") {
        vec!["py"]
    } else if str_eq(lang, "go") {
        vec!["go"]
    } else if str_eq(lang, "rs") {
        vec!["rs"]
    } else {
        Vec::new()
    };
    assert(v@.map_values(|e: &str| e@) =~= lang_extensions(lang@));
    v
}

/// The source file extensions of the given language tags, in order.
pub fn languages_to_extensions(langs: &[String]) -> (r: Vec<&'static str>)
    ensures
        r@.map_values(|e: &str| e@) == extensions_of(
            langs@.map_values(|l: String| l@),
            langs@.len() as int,
        ),
{
    let ghost lv = langs@.map_values(|l: String| l@);
    let mut out: Vec<&'static str> = Vec::new();
    let mut k: usize = 0;
    while k < langs.len()
        invariant
            k <= langs@.len(),
            lv == langs@.map_values(|l: String| l@),
            out@.map_values(|e: &str| e@) == extensions_of(lv, k as int),
        decreases langs@.len() - k,
    {
        let mut ext = extensions_for(langs[k].as_str());
        let ghost before = out@.map_values(|e: &str| e@);
        let ghost ev = ext@.map_values(|e: &str| e@);
        out.append(&mut ext);
        assert(out@.map_values(|e: &str| e@) =~= before + ev);
        k = k + 1;
    }
    out
}

/// The hits of `pats` in the files `files[0..n)` (path and text), file by file.
pub open spec fn repo_hits(files: Seq<(String, String)>, pats: Seq<SourcePattern>, n: int) -> Seq<HitModel>
    decreases n,
{
    if n <= 0 {
        seq![]
    } else {
        repo_hits(files, pats, n - 1) + scan_hits(
            files[n - 1].0@,
            lines(files[n - 1].1@),
            pats,
            pats.len() as int,
        )
    }
}

/// Every line of the given source files (path and text) that matches one
/// of the problem's source patterns; none when it has no patterns.
pub fn scan_repo(problem: &Problem, files: &[(String, String)]) -> (r: Vec<SourceHit>)
    ensures
        match problem.source_patterns {
            None => r@.len() == 0,
            Some(sp) => hit_views(r@) == repo_hits(files@, sp.patterns@, files@.len() as int),
        },
{
    let mut hits: Vec<SourceHit> = Vec::new();
    match &problem.source_patterns {
        None => hits,
        Some(sp) => {
            let mut k: usize = 0;
            while k < files.len()
                invariant
                    k <= files@.len(),
                    hit_views(hits@) == repo_hits(files@, sp.patterns@, k as int),
                decreases files@.len() - k,
            {
                let mut found = scan_content(files[k].0.as_str(), files[k].1.as_str(), sp.patterns.as_slice());
                let ghost before = hit_views(hits@);
                let ghost fv = hit_views(found@);
                hits.append(&mut found);
                assert(hit_views(hits@) =~= before + fv);
                k = k + 1;
            }
            hits
        },
    }
}

} // verus!
