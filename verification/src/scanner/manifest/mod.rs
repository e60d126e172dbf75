pub mod cargo;
pub mod go;
pub mod npm;
pub mod pip;

use vstd::prelude::*;

use crate::scanner::manifest::cargo::{cargo_packages, DepSpec};
use crate::scanner::manifest::go::go_packages;
use crate::scanner::manifest::npm::dep_packages;
use crate::scanner::manifest::pip::{pyproject_packages, requirements_packages};
use crate::scanner::repo_finder::Repo;

verus! {

/// A resolved package version found inside a repo.
#[derive(Debug)]
pub struct InstalledPackage {
    pub repo_name: String,
    pub repo_path: String,
    pub ecosystem: String,
    pub name: String,
    pub version: String,
}

/// A package as plain values: repo name, repo path, ecosystem, name, version.
pub type PackageModel = (Seq<char>, Seq<char>, Seq<char>, Seq<char>, Seq<char>);

impl View for InstalledPackage {
    type V = PackageModel;

    open spec fn view(&self) -> PackageModel {
        (self.repo_name@, self.repo_path@, self.ecosystem@, self.name@, self.version@)
    }
}

/// The views of a sequence of packages.
pub open spec fn package_views(ps: Seq<InstalledPackage>) -> Seq<PackageModel> {
    ps.map_values(|p: InstalledPackage| p@)
}

/// What the manifests of a repo hold, as read from disk: the dependencies
/// of `package.json` (dependencies then devDependencies, name and version
/// spec) and the versions `package-lock.json` resolves; the text of
/// `requirements.txt` and the dependency strings of `pyproject.toml`; the
/// text of `go.mod`; the dependencies of `Cargo.toml` and the versions
/// `Cargo.lock` lists. A missing manifest has no entries.
pub struct RepoManifests {
    pub npm_deps: Vec<(String, String)>,
    pub npm_lock: Vec<(String, String)>,
    pub requirements_txt: Option<String>,
    pub pyproject_deps: Vec<String>,
    pub go_mod: Option<String>,
    pub cargo_deps: Vec<(String, DepSpec)>,
    pub cargo_lock: Vec<(String, String)>,
}

/// Every installed package of a repo: npm, pip, go, then cargo.
pub fn read_all(repo: &Repo, m: &RepoManifests) -> (r: Vec<InstalledPackage>)
    ensures
        package_views(r@) == dep_packages(
            repo.name@,
            repo.path@,
            "npm"@,
            m.npm_deps@.map_values(|d: (String, String)| (d.0@, d.1@)),
            m.npm_lock@,
            m.npm_deps@.len() as int,
        ) + (match m.requirements_txt {
            Some(c) => requirements_packages(c@, repo.name@, repo.path@),
            None => seq![],
        }) + pyproject_packages(
            m.pyproject_deps@.map_values(|s: String| s@),
            repo.name@,
            repo.path@,
            m.pyproject_deps@.len() as int,
        )
            + (match m.go_mod {
            Some(c) => go_packages(c@, repo.name@, repo.path@),
            None => seq![],
        }) + cargo_packages(repo.name@, repo.path@, m.cargo_deps@, m.cargo_lock@, m.cargo_deps@.len() as int),
{
    let name = repo.name.as_str();
    let path = repo.path.as_str();
    let mut out = npm::read(name, path, m.npm_deps.as_slice(), m.npm_lock.as_slice());
    let ghost v1 = package_views(out@);
    let req: Option<&str> = match &m.requirements_txt {
        Some(c) => Some(c.as_str()),
        None => None,
    };
    let mut p = pip::read(name, path, req, m.pyproject_deps.as_slice());
    let ghost v2 = package_views(p@);
    out.append(&mut p);
    assert(package_views(out@) =~= v1 + v2);
    let ghost v12 = package_views(out@);
    let mut g = match &m.go_mod {
        Some(c) => go::parse_go_mod(c.as_str(), name, path),
        None => Vec::new(),
    };
    let ghost v3 = package_views(g@);
    out.append(&mut g);
    assert(package_views(out@) =~= v12 + v3);
    let ghost v123 = package_views(out@);
    let mut c = cargo::read(name, path, m.cargo_deps.as_slice(), m.cargo_lock.as_slice());
    let ghost v4 = package_views(c@);
    out.append(&mut c);
    assert(package_views(out@) =~= v123 + v4);
    out
}

} // verus!
