//! Regular expressions: compiling, matching, and what a pattern finds in a
//! text. The matching itself is the work of the `regex` crate.

use regex::Regex;
use vstd::prelude::*;

verus! {

/// A compiled regular expression of the `regex` crate. Nothing of its
/// inside is known here.
#[verifier::external_type_specification]
#[verifier::external_body]
pub struct ExRegex(regex::Regex);

/// The error of the `regex` crate.
#[verifier::external_type_specification]
#[verifier::external_body]
pub struct ExRegexError(regex::Error);

/// Whether `pattern` is one that `regex::Regex::new` compiles.
pub uninterp spec fn regex_compiles(pattern: Seq<char>) -> bool;

/// The pattern that `re` is the compiled form of: `Some(p)` where `re` is
/// what `regex::Regex::new` makes of `p`, or a copy of that, and `None` for
/// an expression that was built in any other way, as with options of its
/// own.
pub uninterp spec fn regex_origin(re: Regex) -> Option<Seq<char>>;

/// Whether the regular expression `pattern` matches anywhere in `haystack`.
pub uninterp spec fn regex_is_match(pattern: Seq<char>, haystack: Seq<char>) -> bool;

/// The parts of `haystack` that the matches of `pattern` leave over: what
/// stands before the first match, between each two, and behind the last.
pub uninterp spec fn regex_split(pattern: Seq<char>, haystack: Seq<char>) -> Seq<Seq<char>>;

/// The matches of `pattern` in `haystack` from left to right, none
/// overlapping another, each as the texts of its capture groups. Group 0 is
/// the whole match; a group that took no part in the match is `None`.
pub uninterp spec fn regex_captures(pattern: Seq<char>, haystack: Seq<char>) -> Seq<
    Seq<Option<Seq<char>>>,
>;

/// `regex::Regex::new`: compiles `pattern` with the default options, or
/// reports why it cannot.
pub assume_specification[ Regex::new ](pattern: &str) -> (r: Result<Regex, regex::Error>)
    ensures
        r is Ok <==> regex_compiles(pattern@),
        r matches Ok(re) ==> regex_origin(re) == Some(pattern@),
;

/// `regex::Regex::as_str`: the text that the expression was compiled from.
pub assume_specification<'a>[ Regex::as_str ](re: &'a Regex) -> (s: &'a str)
    ensures
        regex_origin(*re) matches Some(pattern) ==> s@ == pattern,
;

/// `regex::Regex::is_match`: whether the expression matches anywhere in
/// `haystack`. Of an expression that `Regex::new` compiled, this is a matter
/// of its pattern and the haystack alone.
pub assume_specification[ Regex::is_match ](re: &Regex, haystack: &str) -> (b: bool)
    ensures
        regex_origin(*re) matches Some(pattern) ==> b == regex_is_match(pattern, haystack@),
;

/// `Clone` for `regex::Regex`: the copy is the same compiled expression.
pub assume_specification[ <Regex as Clone>::clone ](re: &Regex) -> (copy: Regex)
    ensures
        regex_origin(copy) == regex_origin(*re),
;

/// `regex::Regex::split`, its pieces collected: the parts of `haystack` that
/// no match covers, in order.
#[verifier::external_body]
pub(crate) fn split_pieces(re: &Regex, haystack: &str) -> (pieces: Vec<String>)
    ensures
        regex_origin(*re) matches Some(pattern) ==> pieces.deep_view() == regex_split(
            pattern,
            haystack@,
        ),
{
    re.split(haystack).map(|piece| piece.to_string()).collect()
}

/// `regex::Regex::captures_iter`, its matches collected: for each match the
/// text of every capture group, group 0 first.
#[verifier::external_body]
pub(crate) fn capture_groups(re: &Regex, haystack: &str) -> (found: Vec<Vec<Option<String>>>)
    ensures
        regex_origin(*re) matches Some(pattern) ==> found.deep_view() == regex_captures(
            pattern,
            haystack@,
        ),
{
    re.captures_iter(haystack).map(
        |caps| caps.iter().map(|group| group.map(|m| m.as_str().to_string())).collect(),
    ).collect()
}

/// Why a pattern could not be compiled.
#[derive(Clone, Debug, PartialEq, Eq)]
pub enum PatternError {
    /// The pattern is not a regular expression; the text says why.
    Syntax(String),
    /// The compiled pattern would be larger than the given limit.
    TooBig(usize),
    Other,
}

/// Tells the variants of `regex::Error` apart.
#[verifier::external_body]
fn pattern_error(e: regex::Error) -> PatternError {
    match e {
        regex::Error::Syntax(message) => PatternError::Syntax(message),
        regex::Error::CompiledTooBig(limit) => PatternError::TooBig(limit),
        _ => PatternError::Other,
    }
}

/// Compiles `pattern`.
pub fn compile(pattern: &str) -> (r: Result<Regex, PatternError>)
    ensures
        r is Ok <==> regex_compiles(pattern@),
        r matches Ok(re) ==> regex_origin(re) == Some(pattern@),
{
    match Regex::new(pattern) {
        Ok(re) => Ok(re),
        Err(e) => Err(pattern_error(e)),
    }
}

/// The compiled form of each pattern that was asked for, so that no pattern
/// is compiled twice.
pub struct RegexCache {
    compiled: Vec<Regex>,
}

impl RegexCache {
    /// Every expression that the cache holds was compiled from a pattern
    /// by `compile`.
    pub closed spec fn wf(&self) -> bool {
        forall|i: int|
            0 <= i < self.compiled@.len() ==> (#[trigger] regex_origin(self.compiled@[i])) is Some
                && regex_compiles(regex_origin(self.compiled@[i])->0)
    }

    /// The patterns whose compiled form the cache holds.
    pub closed spec fn patterns(&self) -> Set<Seq<char>> {
        Set::new(
            |p: Seq<char>|
                exists|i: int|
                    0 <= i < self.compiled@.len() && #[trigger] regex_origin(self.compiled@[i])
                        == Some(p),
        )
    }

    /// A cache that holds nothing.
    pub fn new() -> (cache: RegexCache)
        ensures
            cache.wf(),
            cache.patterns() == Set::<Seq<char>>::empty(),
    {
        let cache = RegexCache { compiled: Vec::new() };
        assert(cache.patterns() =~= Set::<Seq<char>>::empty());
        cache
    }

    /// The compiled form of `pattern`, from the cache where it holds one.
    /// A pattern that compiles is in the cache afterwards; one that does not
    /// is reported and leaves the cache as it was.
    pub fn compile(&mut self, pattern: &str) -> (r: Result<Regex, PatternError>)
        requires
            old(self).wf(),
        ensures
            final(self).wf(),
            r is Ok <==> regex_compiles(pattern@),
            r matches Ok(re) ==> regex_origin(re) == Some(pattern@),
            final(self).patterns() == if regex_compiles(pattern@) {
                old(self).patterns().insert(pattern@)
            } else {
                old(self).patterns()
            },
    {
        let key = pattern.to_owned();
        let mut i: usize = 0;
        while i < self.compiled.len()
            invariant
                i <= self.compiled.len(),
                key@ == pattern@,
                *self == *old(self),
                self.wf(),
                forall|j: int|
                    0 <= j < i ==> regex_origin(self.compiled@[j]) != Some(pattern@),
            decreases self.compiled.len() - i,
        {
            if self.compiled[i].as_str().to_owned() == key {
                assert(regex_origin(self.compiled@[i as int]) == Some(pattern@));
                assert(self.patterns() =~= old(self).patterns().insert(pattern@));
                return Ok(self.compiled[i].clone());
            }
            i += 1;
        }
        match Regex::new(pattern) {
            Ok(re) => {
                let copy = re.clone();
                let ghost before = self.compiled@;
                self.compiled.push(re);
                assert forall|p: Seq<char>|
                    self.patterns().contains(p) == old(self).patterns().insert(pattern@).contains(
                        p,
                    ) by {
                    if self.patterns().contains(p) {
                        let k = choose|k: int|
                            0 <= k < self.compiled@.len() && #[trigger] regex_origin(
                                self.compiled@[k],
                            ) == Some(p);
                        if k < before.len() {
                            assert(regex_origin(before[k]) == Some(p));
                        }
                    }
                    if old(self).patterns().contains(p) {
                        let k = choose|k: int|
                            0 <= k < before.len() && #[trigger] regex_origin(before[k]) == Some(p);
                        assert(regex_origin(self.compiled@[k]) == Some(p));
                    }
                    if p == pattern@ {
                        assert(regex_origin(self.compiled@[before.len() as int]) == Some(p));
                    }
                }
                assert(self.patterns() =~= old(self).patterns().insert(pattern@));
                Ok(copy)
            },
            Err(e) => Err(pattern_error(e)),
        }
    }
}

} // verus!
