//! What the configuration file may set, and the glob query it stands for.

use crate::text::{chars_of, extend, string_of, string_views};
use vstd::prelude::*;

verus! {

/// The contents of a configuration file.
#[derive(Debug)]
pub struct Config {
    pub files: Option<FilesConfig>,
}

/// The `[files]` table of a configuration file.
#[derive(Debug)]
pub struct FilesConfig {
    pub glob_filter: Option<Vec<String>>,
}

/// The names under which a configuration file is looked for in a directory,
/// in the order in which they are tried.
pub fn config_file_names() -> (names: Vec<String>)
    ensures
        names.len() == 2,
        names[0]@ == "ised.config.toml"@,
        names[1]@ == ".ised.config.toml"@,
{
    let mut names: Vec<String> = Vec::new();
    names.push("ised.config.toml".to_owned());
    names.push(".ised.config.toml".to_owned());
    names
}

/// The first `n` of `patterns`, a comma between each two.
pub open spec fn joined_upto(patterns: Seq<Seq<char>>, n: nat) -> Seq<char>
    decreases n,
{
    if n == 0 {
        Seq::empty()
    } else if n == 1 {
        patterns[0]
    } else {
        joined_upto(patterns, (n - 1) as nat).push(',') + patterns[n - 1]
    }
}

/// `patterns` as one glob query: a comma between each two.
pub open spec fn joined(patterns: Seq<Seq<char>>) -> Seq<char> {
    joined_upto(patterns, patterns.len())
}

/// The glob query that `config` sets: the patterns of `files.glob_filter`
/// joined by commas, and the empty query where any of the three is missing.
pub open spec fn configured_query(config: Option<Config>) -> Seq<char> {
    match config {
        Some(Config { files: Some(FilesConfig { glob_filter: Some(patterns) }) }) => joined(
            string_views(patterns@),
        ),
        _ => Seq::empty(),
    }
}

/// `patterns` joined by commas.
fn join_patterns(patterns: &Vec<String>) -> (query: String)
    ensures
        query@ == joined(string_views(patterns@)),
{
    let mut out: Vec<char> = Vec::new();
    let mut i: usize = 0;
    let ghost views = string_views(patterns@);
    while i < patterns.len()
        invariant
            i <= patterns.len(),
            views == string_views(patterns@),
            out@ == joined_upto(views, i as nat),
        decreases patterns.len() - i,
    {
        if i > 0 {
            out.push(',');
        }
        let chars = chars_of(patterns[i].as_str());
        assert(chars@ == views[i as int]);
        extend(&mut out, &chars);
        proof {
            if i == 0 {
                assert(out@ =~= views[0]);
            }
        }
        i += 1;
    }
    string_of(&out)
}

/// The glob query that the configuration sets.
pub fn glob_query(config: &Option<Config>) -> (query: String)
    ensures
        query@ == configured_query(*config),
{
    match config {
        Some(Config { files: Some(FilesConfig { glob_filter: Some(patterns) }) }) => join_patterns(
            patterns,
        ),
        _ => String::new(),
    }
}

} // verus!
