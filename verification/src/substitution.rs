//! Substitution: the replacement text that a template gives for one match,
//! and the text that results when every match is replaced.

use crate::pattern::{capture_groups, regex_captures, regex_compiles, regex_split, split_pieces};
use crate::text::{
    chars_of, decimal, decimal_digits, extend, replace, replace_occurrences, string_of,
};
use regex::Regex;
use vstd::prelude::*;

verus! {

/// The token that stands for capture group `i` in a template: a dollar sign
/// and the group's number in decimal.
pub open spec fn group_token(i: nat) -> Seq<char> {
    seq!['$'] + decimal(i)
}

/// The text of group `i`: what it captured, or nothing where it took no part
/// in the match.
pub open spec fn group_text(groups: Seq<Option<Seq<char>>>, i: int) -> Seq<char> {
    match groups[i] {
        Some(text) => text,
        None => Seq::empty(),
    }
}

/// `template` after the tokens of the groups `1` to `k - 1` have been
/// replaced, one group after the other in rising order, each in the text
/// that the groups before it left.
pub open spec fn expand_upto(template: Seq<char>, groups: Seq<Option<Seq<char>>>, k: nat) -> Seq<
    char,
>
    decreases k,
{
    if k <= 1 {
        template
    } else {
        replace_occurrences(
            expand_upto(template, groups, (k - 1) as nat),
            group_token((k - 1) as nat),
            group_text(groups, k - 1),
        )
    }
}

/// The replacement text for a match with the capture groups `groups`, group
/// 0 being the whole match: `template` with the token of every group from 1
/// on replaced by the group's text. The token of group 0 is left as it is.
pub open spec fn expand(template: Seq<char>, groups: Seq<Option<Seq<char>>>) -> Seq<char> {
    expand_upto(template, groups, groups.len())
}

/// The replacement text that `template` gives for a match with the capture
/// groups `groups`.
pub fn expand_template(template: &str, groups: &Vec<Option<String>>) -> (out: String)
    ensures
        out@ == expand(template@, groups.deep_view()),
{
    let out = expand_chars(&chars_of(template), groups);
    string_of(&out)
}

/// The same, on characters.
fn expand_chars(template: &Vec<char>, groups: &Vec<Option<String>>) -> (out: Vec<char>)
    ensures
        out@ == expand(template@, groups.deep_view()),
{
    let mut out: Vec<char> = Vec::new();
    extend(&mut out, template);
    assert(out@ =~= template@);
    let ghost model = groups.deep_view();
    let mut i: usize = 1;
    while i < groups.len()
        invariant
            1 <= i,
            model == groups.deep_view(),
            model.len() == groups.len(),
            i == 1 || i <= groups.len(),
            out@ == expand_upto(template@, model, i as nat),
        decreases groups.len() - i,
    {
        let mut token: Vec<char> = Vec::new();
        token.push('$');
        let digits = decimal_digits(i);
        extend(&mut token, &digits);
        assert(token@ =~= group_token(i as nat));
        let text = match &groups[i] {
            Some(captured) => chars_of(captured.as_str()),
            None => Vec::new(),
        };
        assert(text@ =~= group_text(model, i as int));
        out = replace(&out, &token, &text);
        i += 1;
    }
    proof {
        if groups.len() == 0 {
            assert(expand_upto(template@, model, 1) == expand_upto(template@, model, 0));
        }
    }
    out
}

/// Element `i` of `texts`, or nothing where there is no such element.
pub open spec fn text_at(texts: Seq<Seq<char>>, i: int) -> Seq<char> {
    if 0 <= i < texts.len() {
        texts[i]
    } else {
        Seq::empty()
    }
}

/// The replacement for match `i`, or nothing where there is no such match.
pub open spec fn fill_at(found: Seq<Seq<Option<Seq<char>>>>, template: Seq<char>, i: int) -> Seq<
    char,
> {
    if 0 <= i < found.len() {
        expand(template, found[i])
    } else {
        Seq::empty()
    }
}

/// The first `n` pieces, each followed by the replacement for the match
/// behind it.
pub open spec fn woven_upto(
    pieces: Seq<Seq<char>>,
    found: Seq<Seq<Option<Seq<char>>>>,
    template: Seq<char>,
    n: nat,
) -> Seq<char>
    decreases n,
{
    if n == 0 {
        Seq::empty()
    } else {
        woven_upto(pieces, found, template, (n - 1) as nat) + text_at(pieces, n - 1) + fill_at(
            found,
            template,
            n - 1,
        )
    }
}

/// The text in which every match is replaced: the pieces that the matches
/// leave over, in order, with the replacement for each match in its place
/// between them.
pub open spec fn woven(
    pieces: Seq<Seq<char>>,
    found: Seq<Seq<Option<Seq<char>>>>,
    template: Seq<char>,
) -> Seq<char> {
    woven_upto(
        pieces,
        found,
        template,
        if pieces.len() >= found.len() {
            pieces.len()
        } else {
            found.len()
        },
    )
}

/// Puts a text together again from the pieces between the matches of a
/// pattern and the capture groups of each match, with every match replaced
/// by what `template` gives for it.
pub fn substitute_matches(
    pieces: &Vec<String>,
    found: &Vec<Vec<Option<String>>>,
    template: &str,
) -> (out: String)
    ensures
        out@ == woven(pieces.deep_view(), found.deep_view(), template@),
{
    let template_chars = chars_of(template);
    let n = if pieces.len() >= found.len() {
        pieces.len()
    } else {
        found.len()
    };
    let ghost ps = pieces.deep_view();
    let ghost fs = found.deep_view();
    let mut out: Vec<char> = Vec::new();
    let mut i: usize = 0;
    while i < n
        invariant
            i <= n,
            n == if pieces.len() >= found.len() {
                pieces.len()
            } else {
                found.len()
            },
            ps == pieces.deep_view(),
            fs == found.deep_view(),
            template_chars@ == template@,
            out@ == woven_upto(ps, fs, template@, i as nat),
        decreases n - i,
    {
        let ghost before = out@;
        if i < pieces.len() {
            let piece = chars_of(pieces[i].as_str());
            assert(piece@ == text_at(ps, i as int));
            extend(&mut out, &piece);
        }
        assert(out@ =~= before + text_at(ps, i as int));
        if i < found.len() {
            let fill = expand_chars(&template_chars, &found[i]);
            assert(found[i as int].deep_view() == fs[i as int]);
            assert(fill@ == fill_at(fs, template@, i as int));
            extend(&mut out, &fill);
        }
        assert(out@ =~= before + text_at(ps, i as int) + fill_at(fs, template@, i as int));
        i += 1;
    }
    string_of(&out)
}

/// What substitution makes of `content`: where the pattern compiles, the
/// content with every match replaced; where it does not, the content itself.
pub open spec fn substituted(
    content: Seq<char>,
    from_pattern: Seq<char>,
    to_template: Seq<char>,
) -> Seq<char> {
    if regex_compiles(from_pattern) {
        woven(
            regex_split(from_pattern, content),
            regex_captures(from_pattern, content),
            to_template,
        )
    } else {
        content
    }
}

/// `content` with every match of `re` replaced by what `template` gives for
/// it.
pub fn replace_matches(re: &Regex, content: &str, template: &str) -> (out: String)
    requires
        crate::pattern::regex_origin(*re) is Some,
    ensures
        out@ == woven(
            regex_split(crate::pattern::regex_origin(*re)->0, content@),
            regex_captures(crate::pattern::regex_origin(*re)->0, content@),
            template@,
        ),
{
    let pieces = split_pieces(re, content);
    let found = capture_groups(re, content);
    substitute_matches(&pieces, &found, template)
}

/// Why a file could not be written.
#[derive(PartialEq, Eq, Clone, Copy, Debug, Structural)]
pub enum WriteError {
    NotFound,
    PermissionDenied,
    Other,
}

/// Why a commit to a file failed: the file could not be read, or the new
/// text could not be written.
#[derive(PartialEq, Eq, Clone, Copy, Debug, Structural)]
pub enum CommitError {
    Read(crate::cache::ReadError),
    Write(WriteError),
}

/// The text that a commit writes to a file, given what reading the file
/// gave: the substitution applied to the text that was read. A file that
/// could not be read is not written.
pub fn plan_commit(
    read: Result<String, crate::cache::ReadError>,
    from_pattern: &str,
    to_template: &str,
) -> (plan: Result<String, CommitError>)
    ensures
        match read {
            Ok(content) => plan matches Ok(text) && text@ == substituted(
                content@,
                from_pattern@,
                to_template@,
            ),
            Err(e) => plan == Err::<String, CommitError>(CommitError::Read(e)),
        },
{
    match read {
        Ok(content) => Ok(
            crate::utils::apply_substitution_partial(content.as_str(), from_pattern, to_template),
        ),
        Err(e) => Err(CommitError::Read(e)),
    }
}

/// What a preview shows for `content`: the text that a commit would write,
/// and the diff of the content against it.
pub fn preview(content: &str, from_pattern: &str, to_template: &str) -> (shown: (
    String,
    Vec<crate::utils::DiffLine>,
))
    ensures
        shown.0@ == substituted(content@, from_pattern@, to_template@),
        crate::utils::diff_views(shown.1@) == crate::utils::diff_of(
            crate::text::lines_of(content@),
            crate::text::lines_of(substituted(content@, from_pattern@, to_template@)),
        ),
{
    let replaced = crate::utils::apply_substitution_partial(content, from_pattern, to_template);
    let diff = crate::utils::diff_lines(content, replaced.as_str());
    (replaced, diff)
}

/// A pattern that does not compile replaces nothing: whatever the template
/// and the content, the content comes back as it is.
pub proof fn law_malformed_pattern_changes_nothing(
    content: Seq<char>,
    from_pattern: Seq<char>,
    to_template: Seq<char>,
)
    requires
        !regex_compiles(from_pattern),
    ensures
        substituted(content, from_pattern, to_template) == content,
{
}

/// A template without a dollar sign is the replacement for every match.
pub proof fn law_plain_template_is_literal(template: Seq<char>, groups: Seq<Option<Seq<char>>>)
    requires
        !template.contains('$'),
    ensures
        expand(template, groups) == template,
{
    lemma_plain_template(template, groups, groups.len());
}

proof fn lemma_plain_template(template: Seq<char>, groups: Seq<Option<Seq<char>>>, k: nat)
    requires
        !template.contains('$'),
    ensures
        expand_upto(template, groups, k) == template,
    decreases k,
{
    if k > 1 {
        lemma_plain_template(template, groups, (k - 1) as nat);
        lemma_replace_without_first_char(
            template,
            group_token((k - 1) as nat),
            group_text(groups, k - 1),
        );
    }
}

/// A text that does not hold the first character of `from` has no
/// occurrence of `from` to replace.
proof fn lemma_replace_without_first_char(s: Seq<char>, from: Seq<char>, to: Seq<char>)
    requires
        from.len() > 0,
        !s.contains(from[0]),
    ensures
        replace_occurrences(s, from, to) == s,
    decreases s.len(),
{
    if s.len() >= from.len() {
        assert(s.contains(s[0]));
        assert(s.subrange(0, from.len() as int)[0] == s[0]);
        assert(s.subrange(0, from.len() as int) != from);
        assert forall|c: char| s.skip(1).contains(c) implies s.contains(c) by {
            let i = choose|i: int| 0 <= i < s.skip(1).len() && s.skip(1)[i] == c;
            assert(s[i + 1] == c);
        }
        lemma_replace_without_first_char(s.skip(1), from, to);
        assert(seq![s[0]] + s.skip(1) =~= s);
    }
}

/// A commit to several files, one after the other. Each file is committed
/// for itself: the batch hands out the next file whatever became of the
/// files before it, and keeps what became of each.
pub struct CommitBatch {
    paths: Vec<String>,
    results: Vec<Result<(), CommitError>>,
}

impl CommitBatch {
    /// No more results than files.
    #[verifier::type_invariant]
    spec fn within(self) -> bool {
        self.results@.len() <= self.paths@.len()
    }

    /// The files of the batch, in the order in which they are committed.
    pub closed spec fn paths(&self) -> Seq<Seq<char>> {
        crate::text::string_views(self.paths@)
    }

    /// What became of the files committed so far, in their order.
    pub closed spec fn results(&self) -> Seq<Result<(), CommitError>> {
        self.results@
    }

    /// A batch of the files `paths`, none of them committed yet.
    pub fn new(paths: Vec<String>) -> (batch: CommitBatch)
        ensures
            batch.paths() == crate::text::string_views(paths@),
            batch.results().len() == 0,
    {
        CommitBatch { paths, results: Vec::new() }
    }

    /// The file to commit next, or `None` when there is none left.
    pub fn next_path(&self) -> (path: Option<&String>)
        ensures
            self.results().len() <= self.paths().len(),
            match path {
                Some(p) => self.results().len() < self.paths().len() && p@
                    == self.paths()[self.results().len() as int],
                None => self.results().len() == self.paths().len(),
            },
    {
        proof {
            use_type_invariant(self);
        }
        if self.results.len() < self.paths.len() {
            Some(&self.paths[self.results.len()])
        } else {
            None
        }
    }

    /// Takes in what became of the file that `next_path` handed out. The
    /// batch goes on with the file behind it, also after a failure. With no
    /// file left there is nothing to take in.
    pub fn record(self, result: Result<(), CommitError>) -> (batch: CommitBatch)
        ensures
            batch.paths() == self.paths(),
            batch.results() == if self.results().len() < self.paths().len() {
                self.results().push(result)
            } else {
                self.results()
            },
    {
        proof {
            use_type_invariant(&self);
        }
        let CommitBatch { paths, mut results } = self;
        if results.len() < paths.len() {
            results.push(result);
        }
        CommitBatch { paths, results }
    }

    /// What became of each file, in the order of the files.
    pub fn into_results(self) -> (results: Vec<Result<(), CommitError>>)
        ensures
            results@ == self.results(),
    {
        self.results
    }
}

} // verus!
