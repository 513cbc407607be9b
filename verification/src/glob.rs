//! Glob queries: a comma-separated list of shell-style patterns, each one
//! either admitting paths or, behind a `!`, excluding them. Matching a
//! pattern against a path is the work of the `globset` crate.

use crate::text::{
    chars_of, lemma_filter_empty, lemma_filter_step, slice_of, split, split_on, string_of,
    string_views, trim, trimmed, views,
};
use globset::{Glob, GlobSet, GlobSetBuilder};
use vstd::prelude::*;

verus! {

/// A parsed glob of the `globset` crate. Nothing of its inside is known
/// here.
#[verifier::external_type_specification]
#[verifier::external_body]
pub struct ExGlob(globset::Glob);

/// A set of globs of the `globset` crate, ready for matching.
#[verifier::external_type_specification]
#[verifier::external_body]
pub struct ExGlobSet(globset::GlobSet);

/// The builder of a set of globs of the `globset` crate.
#[verifier::external_type_specification]
#[verifier::external_body]
pub struct ExGlobSetBuilder(globset::GlobSetBuilder);

/// The error of the `globset` crate.
#[verifier::external_type_specification]
#[verifier::external_body]
pub struct ExGlobError(globset::Error);

/// Whether `pattern` is one that `globset::Glob::new` accepts.
pub uninterp spec fn glob_compiles(pattern: Seq<char>) -> bool;

/// The pattern that `glob` is the parsed form of: `Some(p)` where `glob` is
/// what `globset::Glob::new` makes of `p`, and `None` for a glob that was
/// built in any other way, as with options of its own.
pub uninterp spec fn glob_origin(glob: Glob) -> Option<Seq<char>>;

/// Whether the glob that `globset::Glob::new` makes of `pattern` matches
/// `path`, on the platform that the library is built for: where the
/// platform knows `\` as a path separator, `globset` reads it as one in the
/// pattern and in the path.
pub uninterp spec fn glob_matches(pattern: Seq<char>, path: Seq<char>) -> bool;

/// The globs that were added to `builder`, in order, each by the pattern it
/// is the parsed form of.
pub uninterp spec fn builder_globs(builder: GlobSetBuilder) -> Seq<Option<Seq<char>>>;

/// The globs that `set` was built from, in order, each by the pattern it is
/// the parsed form of.
pub uninterp spec fn set_globs(set: GlobSet) -> Seq<Option<Seq<char>>>;

/// Whether a set can be built of what `globset::Glob::new` makes of the
/// patterns `patterns`.
pub uninterp spec fn set_builds(patterns: Seq<Seq<char>>) -> bool;

/// Whether each glob of `globs` is what `globset::Glob::new` made of a
/// pattern.
pub open spec fn all_parsed(globs: Seq<Option<Seq<char>>>) -> bool {
    forall|i: int| 0 <= i < globs.len() ==> (#[trigger] globs[i]) is Some
}

/// The patterns of `globs`, one for one.
pub open spec fn patterns_of(globs: Seq<Option<Seq<char>>>) -> Seq<Seq<char>> {
    globs.map_values(|g: Option<Seq<char>>| g->0)
}

/// `globset::Glob::new`: parses `glob` with the default options, or reports
/// why it is no glob.
pub assume_specification[ Glob::new ](glob: &str) -> (r: Result<Glob, globset::Error>)
    ensures
        r is Ok <==> glob_compiles(glob@),
        r matches Ok(g) ==> glob_origin(g) == Some(glob@),
;

/// `globset::GlobSetBuilder::new`: a builder to which no glob was added.
pub assume_specification[ GlobSetBuilder::new ]() -> (builder: GlobSetBuilder)
    ensures
        builder_globs(builder) == Seq::<Option<Seq<char>>>::empty(),
;

/// `globset::GlobSetBuilder::add`: adds `glob` behind the globs that the
/// builder holds.
#[verifier::external_body]
fn add_glob(builder: &mut GlobSetBuilder, glob: Glob)
    ensures
        builder_globs(*final(builder)) == builder_globs(*old(builder)).push(glob_origin(glob)),
{
    builder.add(glob);
}

/// `globset::GlobSetBuilder::build`: the set of the globs added so far, or
/// an error where no matcher can be built for them. Of globs that
/// `Glob::new` parsed, whether a set can be built is a matter of their
/// patterns alone.
pub assume_specification[ GlobSetBuilder::build ](builder: &GlobSetBuilder) -> (r: Result<
    GlobSet,
    globset::Error,
>)
    ensures
        r matches Ok(set) ==> set_globs(set) == builder_globs(*builder),
        all_parsed(builder_globs(*builder)) ==> (r is Ok <==> set_builds(
            patterns_of(builder_globs(*builder)),
        )),
;

/// `globset::GlobSet::is_match`: whether any glob of the set matches `path`.
#[verifier::external_body]
fn set_is_match(set: &GlobSet, path: &str) -> (b: bool)
    ensures
        all_parsed(set_globs(*set)) ==> b == (exists|i: int|
            0 <= i < set_globs(*set).len() && glob_matches(
                (#[trigger] set_globs(*set)[i])->0,
                path@,
            )),
{
    set.is_match(path)
}

/// Whether one of the globs `patterns` matches `path`.
pub open spec fn any_matches(patterns: Seq<Seq<char>>, path: Seq<char>) -> bool {
    exists|i: int| 0 <= i < patterns.len() && glob_matches(#[trigger] patterns[i], path)
}

/// The clauses of a glob query: its parts between commas, each without the
/// white space around it, the empty ones left out.
pub open spec fn clauses(query: Seq<char>) -> Seq<Seq<char>> {
    split_on(query, ',').map_values(|c: Seq<char>| trim(c)).filter(|c: Seq<char>| c.len() > 0)
}

/// A clause that begins with `!` excludes.
pub open spec fn is_exclusion(clause: Seq<char>) -> bool {
    clause.len() > 0 && clause[0] == '!'
}

/// The patterns that the query admits paths by: its clauses that do not
/// exclude.
pub open spec fn include_patterns(query: Seq<char>) -> Seq<Seq<char>> {
    clauses(query).filter(|c: Seq<char>| !is_exclusion(c))
}

/// The patterns that the query excludes paths by: its clauses that exclude,
/// each without the `!` in front.
pub open spec fn exclude_patterns(query: Seq<char>) -> Seq<Seq<char>> {
    clauses(query).filter(|c: Seq<char>| is_exclusion(c)).map_values(|c: Seq<char>| c.skip(1))
}

/// The patterns among `patterns` that are globs. The others are passed over.
pub open spec fn well_formed(patterns: Seq<Seq<char>>) -> Seq<Seq<char>> {
    patterns.filter(|p: Seq<char>| glob_compiles(p))
}

/// Whether the set of the globs among `patterns` matches `path`. Where no
/// set can be built of them, nothing matches.
pub open spec fn set_matches(patterns: Seq<Seq<char>>, path: Seq<char>) -> bool {
    set_builds(well_formed(patterns)) && any_matches(well_formed(patterns), path)
}

/// Whether `path` passes the glob query: it matches an include pattern, if
/// the query has any include clause at all, and it matches no exclude
/// pattern.
pub open spec fn glob_passes(query: Seq<char>, path: Seq<char>) -> bool {
    (include_patterns(query).len() == 0 || set_matches(include_patterns(query), path))
        && !set_matches(exclude_patterns(query), path)
}

/// The include and exclude patterns of a glob query.
pub struct GlobQuery {
    pub includes: Vec<String>,
    pub excludes: Vec<String>,
}

/// Takes a glob query apart into its include and exclude patterns.
pub fn parse_query(query: &str) -> (parsed: GlobQuery)
    ensures
        string_views(parsed.includes@) == include_patterns(query@),
        string_views(parsed.excludes@) == exclude_patterns(query@),
{
    let chars = chars_of(query);
    let parts = split(&chars, ',');
    let ghost raw = split_on(query@, ',');
    let ghost trimmed_parts = raw.map_values(|c: Seq<char>| trim(c));
    let ghost nonempty = |c: Seq<char>| c.len() > 0;
    let ghost admits = |c: Seq<char>| !is_exclusion(c);
    let ghost bars = |c: Seq<char>| is_exclusion(c);
    let ghost strip = |c: Seq<char>| c.skip(1);
    let mut includes: Vec<String> = Vec::new();
    let mut excludes: Vec<String> = Vec::new();
    let mut i: usize = 0;
    proof {
        assert(trimmed_parts.take(0) =~= Seq::<Seq<char>>::empty());
        lemma_filter_empty(nonempty);
        lemma_filter_empty(admits);
        lemma_filter_empty(bars);
        assert(string_views(includes@) =~= Seq::<Seq<char>>::empty());
        assert(string_views(excludes@) =~= Seq::<Seq<char>>::empty().map_values(strip));
    }
    while i < parts.len()
        invariant
            i <= parts.len(),
            views(parts@) == raw,
            raw == split_on(query@, ','),
            trimmed_parts == raw.map_values(|c: Seq<char>| trim(c)),
            nonempty == |c: Seq<char>| c.len() > 0,
            admits == |c: Seq<char>| !is_exclusion(c),
            bars == |c: Seq<char>| is_exclusion(c),
            strip == |c: Seq<char>| c.skip(1),
            string_views(includes@) == trimmed_parts.take(i as int).filter(nonempty).filter(admits),
            string_views(excludes@) == trimmed_parts.take(i as int).filter(nonempty).filter(
                bars,
            ).map_values(strip),
        decreases parts.len() - i,
    {
        let clause = trimmed(&parts[i]);
        proof {
            assert(parts[i as int]@ == raw[i as int]);
            assert(clause@ == trimmed_parts[i as int]);
            lemma_filter_step(trimmed_parts, i as int, nonempty);
            let kept = trimmed_parts.take(i as int).filter(nonempty);
            if nonempty(clause@) {
                crate::text::lemma_filter_push(kept, clause@, admits);
                crate::text::lemma_filter_push(kept, clause@, bars);
            }
        }
        if clause.len() > 0 {
            if clause[0] == '!' {
                let pattern = slice_of(&clause, 1, clause.len());
                assert(pattern@ =~= clause@.skip(1));
                let ghost before = excludes@;
                excludes.push(string_of(&pattern));
                proof {
                    let kept = trimmed_parts.take(i as int).filter(nonempty).filter(bars);
                    assert(string_views(excludes@) =~= string_views(before).push(pattern@));
                    assert(kept.push(clause@).map_values(strip) =~= kept.map_values(strip).push(
                        strip(clause@),
                    ));
                }
            } else {
                let ghost before = includes@;
                includes.push(string_of(&clause));
                assert(string_views(includes@) =~= string_views(before).push(clause@));
            }
        }
        i += 1;
    }
    assert(trimmed_parts.take(i as int) =~= trimmed_parts);
    GlobQuery { includes, excludes }
}

/// The globs that `globset::Glob::new` makes of `patterns`, one for one.
pub open spec fn parsed(patterns: Seq<Seq<char>>) -> Seq<Option<Seq<char>>> {
    patterns.map_values(|p: Seq<char>| Some(p))
}

/// The set of the globs among `patterns`, or `None` where no set can be
/// built of them. Patterns that are no globs are passed over.
fn build_set(patterns: &Vec<String>) -> (set: Option<GlobSet>)
    ensures
        set is Some <==> set_builds(well_formed(string_views(patterns@))),
        set matches Some(s) ==> set_globs(s) == parsed(well_formed(string_views(patterns@))),
{
    let ghost all = string_views(patterns@);
    let ghost compiles = |p: Seq<char>| glob_compiles(p);
    let mut builder = GlobSetBuilder::new();
    let mut i: usize = 0;
    proof {
        assert(all.take(0) =~= Seq::<Seq<char>>::empty());
        lemma_filter_empty(compiles);
        assert(builder_globs(builder) =~= parsed(all.take(0).filter(compiles)));
    }
    while i < patterns.len()
        invariant
            i <= patterns.len(),
            all == string_views(patterns@),
            compiles == |p: Seq<char>| glob_compiles(p),
            builder_globs(builder) == parsed(all.take(i as int).filter(compiles)),
        decreases patterns.len() - i,
    {
        proof {
            assert(patterns[i as int]@ == all[i as int]);
            lemma_filter_step(all, i as int, compiles);
        }
        match Glob::new(patterns[i].as_str()) {
            Ok(glob) => {
                add_glob(&mut builder, glob);
                assert(builder_globs(builder) =~= parsed(all.take(i + 1).filter(compiles)));
            },
            Err(_) => {},
        }
        i += 1;
    }
    assert(all.take(i as int) =~= all);
    proof {
        assert(patterns_of(parsed(well_formed(all))) =~= well_formed(all));
    }
    match builder.build() {
        Ok(set) => Some(set),
        Err(_) => None,
    }
}

/// Whether a set built of `globs` matches `path`.
pub open spec fn set_accepts(globs: Seq<Option<Seq<char>>>, path: Seq<char>) -> bool {
    any_matches(patterns_of(globs), path)
}

/// A glob query made ready for matching.
pub struct GlobFilter {
    has_include: bool,
    admitting: Option<GlobSet>,
    barring: Option<GlobSet>,
}

impl GlobFilter {
    /// The sets hold nothing but globs that `Glob::new` parsed.
    #[verifier::type_invariant]
    spec fn parsed_sets(self) -> bool {
        &&& self.admitting matches Some(set) ==> all_parsed(set_globs(set))
        &&& self.barring matches Some(set) ==> all_parsed(set_globs(set))
    }

    /// Whether the filter lets `path` pass.
    pub closed spec fn accepts(&self, path: Seq<char>) -> bool {
        (!self.has_include || (self.admitting matches Some(set) && set_accepts(
            set_globs(set),
            path,
        ))) && !(self.barring matches Some(set) && set_accepts(set_globs(set), path))
    }

    /// The filter of the glob query `query`.
    pub fn new(query: &str) -> (filter: GlobFilter)
        ensures
            forall|path: Seq<char>| #[trigger] filter.accepts(path) == glob_passes(query@, path),
    {
        let parsed_query = parse_query(query);
        let has_include = parsed_query.includes.len() > 0;
        let admitting = build_set(&parsed_query.includes);
        let barring = build_set(&parsed_query.excludes);
        proof {
            assert(patterns_of(parsed(well_formed(include_patterns(query@)))) =~= well_formed(
                include_patterns(query@),
            ));
            assert(patterns_of(parsed(well_formed(exclude_patterns(query@)))) =~= well_formed(
                exclude_patterns(query@),
            ));
        }
        GlobFilter { has_include, admitting, barring }
    }

    /// Whether `path` passes.
    pub fn is_match(&self, path: &str) -> (passes: bool)
        ensures
            passes == self.accepts(path@),
    {
        proof {
            use_type_invariant(self);
        }
        let included = if self.has_include {
            match &self.admitting {
                Some(set) => {
                    let found = set_is_match(set, path);
                    proof {
                        lemma_set_accepts(set_globs(*set), path@);
                    }
                    found
                },
                None => false,
            }
        } else {
            true
        };
        let excluded = match &self.barring {
            Some(set) => {
                let found = set_is_match(set, path);
                proof {
                    lemma_set_accepts(set_globs(*set), path@);
                }
                found
            },
            None => false,
        };
        included && !excluded
    }
}

/// A set matches a path exactly if the pattern of one of its globs does.
proof fn lemma_set_accepts(globs: Seq<Option<Seq<char>>>, path: Seq<char>)
    ensures
        set_accepts(globs, path) <==> exists|i: int|
            0 <= i < globs.len() && glob_matches((#[trigger] globs[i])->0, path),
{
    let patterns = patterns_of(globs);
    if set_accepts(globs, path) {
        let i = choose|i: int| 0 <= i < patterns.len() && glob_matches(#[trigger] patterns[i], path);
        assert(glob_matches(globs[i]->0, path));
    }
    if exists|i: int| 0 <= i < globs.len() && glob_matches((#[trigger] globs[i])->0, path) {
        let i = choose|i: int|
            0 <= i < globs.len() && glob_matches((#[trigger] globs[i])->0, path);
        assert(glob_matches(patterns[i], path));
    }
}

/// Exclusion wins. A path that an exclude pattern of the query matches does
/// not pass, whatever the include patterns say of it.
pub proof fn law_exclusion_wins(query: Seq<char>, path: Seq<char>)
    requires
        set_matches(exclude_patterns(query), path),
    ensures
        !glob_passes(query, path),
{
}

/// A query without an include clause admits every path that it does not
/// exclude.
pub proof fn law_no_include_admits_all(query: Seq<char>, path: Seq<char>)
    requires
        include_patterns(query).len() == 0,
        !set_matches(exclude_patterns(query), path),
    ensures
        glob_passes(query, path),
{
}


} // verus!
