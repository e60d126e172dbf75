//! The curated list of widely used packages per ecosystem.

use vstd::prelude::*;

use crate::text::str_eq;

verus! {

/// The popular npm package names.
pub open spec fn popular_npm() -> Seq<Seq<char>> {
    seq!["lodash"@, "express"@, "react"@, "axios"@, "chalk"@, "commander"@, "debug"@, "moment"@, "request"@, "async"@, "underscore"@, "vue"@, "webpack"@, "typescript"@, "jquery"@, "uuid"@, "dotenv"@, "yargs"@, "minimist"@, "glob"@, "semver"@, "mkdirp"@, "rimraf"@, "colors"@, "ws"@, "body-parser"@, "next"@, "jest"@, "mocha"@, "eslint"@]
}

/// The popular pip package names.
pub open spec fn popular_pip() -> Seq<Seq<char>> {
    seq!["requests"@, "numpy"@, "pandas"@, "flask"@, "django"@, "boto3"@, "urllib3"@, "setuptools"@, "six"@, "pyyaml"@, "certifi"@, "idna"@, "cryptography"@, "jinja2"@, "click"@, "pytest"@, "scipy"@, "pillow"@, "sqlalchemy"@, "attrs"@]
}

/// The popular go package names.
pub open spec fn popular_go() -> Seq<Seq<char>> {
    seq!["github.com/gin-gonic/gin"@, "github.com/gorilla/mux"@, "golang.org/x/net"@, "golang.org/x/crypto"@, "golang.org/x/text"@, "github.com/stretchr/testify"@, "github.com/sirupsen/logrus"@, "github.com/spf13/cobra"@, "github.com/spf13/viper"@, "google.golang.org/grpc"@, "github.com/golang-jwt/jwt"@, "gopkg.in/yaml.v3"@]
}

/// The popular cargo package names.
pub open spec fn popular_cargo() -> Seq<Seq<char>> {
    seq!["serde"@, "tokio"@, "rand"@, "regex"@, "clap"@, "log"@, "syn"@, "quote"@, "anyhow"@, "thiserror"@, "reqwest"@, "hyper"@, "rustls"@, "serde_json"@, "chrono"@, "futures"@, "bytes"@, "itoa"@, "libc"@, "lazy_static"@]
}

/// The popular package names of an ecosystem (`"npm"`, `"pip"`, `"go"`,
/// `"cargo"`); none for any other.
pub open spec fn popular_spec(eco: Seq<char>) -> Seq<Seq<char>> {
    if eco == "npm"@ {
        popular_npm()
    } else if eco == "pip"@ {
        popular_pip()
    } else if eco == "go"@ {
        popular_go()
    } else if eco == "cargo"@ {
        popular_cargo()
    } else {
        seq![]
    }
}

fn names_of(v: Vec<&'static str>, Ghost(expected): Ghost<Seq<Seq<char>>>) -> (r: Vec<&'static str>)
    requires
        v@.len() == expected.len(),
        forall|i: int| 0 <= i < v@.len() ==> (#[trigger] v@[i])@ == expected[i],
    ensures
        r@.len() == expected.len(),
        forall|i: int| 0 <= i < r@.len() ==> (#[trigger] r@[i])@ == expected[i],
{
    v
}

/// The popular package names of an ecosystem, used to spot typosquats.
pub fn popular_names(eco: &str) -> (r: Vec<&'static str>)
    ensures
        r@.len() == popular_spec(eco@).len(),
        forall|i: int| 0 <= i < r@.len() ==> (#[trigger] r@[i])@ == popular_spec(eco@)[i],
{
    if str_eq(eco, "npm") {
        let v = vec!["lodash", "express", "react", "axios", "chalk", "commander", "debug", "moment", "request", "async", "underscore", "vue", "webpack", "typescript", "jquery", "uuid", "dotenv", "yargs", "minimist", "glob", "semver", "mkdirp", "rimraf", "colors", "ws", "body-parser", "next", "jest", "mocha", "eslint"];
        assert forall|i: int| 0 <= i < v@.len() implies (#[trigger] v@[i])@ == popular_npm()[i] by {}
        names_of(v, Ghost(popular_npm()))
    } else if str_eq(eco, "pip") {
        let v = vec!["requests", "numpy", "pandas", "flask", "django", "boto3", "urllib3", "setuptools", "six", "pyyaml", "certifi", "idna", "cryptography", "jinja2", "click", "pytest", "scipy", "pillow", "sqlalchemy", "attrs"];
        assert forall|i: int| 0 <= i < v@.len() implies (#[trigger] v@[i])@ == popular_pip()[i] by {}
        names_of(v, Ghost(popular_pip()))
    } else if str_eq(eco, "go") {
        let v = vec!["github.com/gin-gonic/gin", "github.com/gorilla/mux", "golang.org/x/net", "golang.org/x/crypto", "golang.org/x/text", "github.com/stretchr/testify", "github.com/sirupsen/logrus", "github.com/spf13/cobra", "github.com/spf13/viper", "google.golang.org/grpc", "github.com/golang-jwt/jwt", "gopkg.in/yaml.v3"];
        assert forall|i: int| 0 <= i < v@.len() implies (#[trigger] v@[i])@ == popular_go()[i] by {}
        names_of(v, Ghost(popular_go()))
    } else if str_eq(eco, "cargo") {
        let v = vec!["serde", "tokio", "rand", "regex", "clap", "log", "syn", "quote", "anyhow", "thiserror", "reqwest", "hyper", "rustls", "serde_json", "chrono", "futures", "bytes", "itoa", "libc", "lazy_static"];
        assert forall|i: int| 0 <= i < v@.len() implies (#[trigger] v@[i])@ == popular_cargo()[i] by {}
        names_of(v, Ghost(popular_cargo()))
    } else {
        Vec::new()
    }
}

} // verus!
