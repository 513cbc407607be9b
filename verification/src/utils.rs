//! Highlighting of a match in a path, the positional line diff, and the
//! binary-content sniff.

use crate::text::{chars_of, find, lines, lines_of, occurs_at, slice_of, string_of, views};
use vstd::prelude::*;

verus! {

/// The colours that the screen uses.
#[derive(Clone, Copy, Debug, PartialEq, Eq, Structural)]
pub enum Color {
    Red,
    Green,
    Yellow,
    Cyan,
}

/// How a span is drawn: its foreground colour, if it has one, and whether it
/// is bold.
#[derive(Clone, Copy, Debug, PartialEq, Eq)]
pub struct Style {
    pub fg: Option<Color>,
    pub bold: bool,
}

impl Style {
    /// The style of text that is not marked.
    pub open spec fn plain() -> Style {
        Style { fg: None, bold: false }
    }

    /// A coloured style that is not bold.
    pub open spec fn colored(color: Color) -> Style {
        Style { fg: Some(color), bold: false }
    }

    /// The style of the matched part of a path.
    pub open spec fn matched() -> Style {
        Style { fg: Some(Color::Green), bold: true }
    }
}

/// A run of text with one style.
#[derive(Clone, Debug, PartialEq, Eq)]
pub struct Span {
    pub content: String,
    pub style: Style,
}

/// A span as the rules see it.
pub ghost struct SpanView {
    pub content: Seq<char>,
    pub style: Style,
}

impl View for Span {
    type V = SpanView;

    open spec fn view(&self) -> SpanView {
        SpanView { content: self.content@, style: self.style }
    }
}

/// One line of styled text.
#[derive(Clone, Debug, PartialEq, Eq)]
pub struct Line {
    pub spans: Vec<Span>,
}

impl View for Line {
    type V = Seq<SpanView>;

    open spec fn view(&self) -> Seq<SpanView> {
        self.spans@.map_values(|s: Span| s@)
    }
}

/// The views of the lines of `lines`, one for one.
pub open spec fn line_views(lines: Seq<Line>) -> Seq<Seq<SpanView>> {
    lines.map_values(|l: Line| l@)
}

/// The span of `chars[from..to]` in `style`.
fn span(chars: &Vec<char>, from: usize, to: usize, style: Style) -> (s: Span)
    requires
        from <= to <= chars.len(),
    ensures
        s@ == (SpanView { content: chars@.subrange(from as int, to as int), style }),
{
    let part = slice_of(chars, from, to);
    Span { content: string_of(&part), style }
}

/// Whether `i` is the first position at which `pat` stands in `text`.
pub open spec fn first_occurrence(text: Seq<char>, pat: Seq<char>, i: int) -> bool {
    occurs_at(text, pat, i) && forall|j: int| 0 <= j < i ==> !occurs_at(text, pat, j)
}

/// The spans of `text` with the `len` characters from `at` on marked as the
/// match: what precedes them, if anything, then the match, then what follows,
/// if anything.
pub open spec fn marked(text: Seq<char>, at: int, len: int) -> Seq<SpanView> {
    let before = if at > 0 {
        seq![SpanView { content: text.subrange(0, at), style: Style::plain() }]
    } else {
        seq![]
    };
    let hit = seq![SpanView { content: text.subrange(at, at + len), style: Style::matched() }];
    let after = if at + len < text.len() {
        seq![SpanView { content: text.subrange(at + len, text.len() as int), style: Style::plain() }]
    } else {
        seq![]
    };
    before + hit + after
}

/// The first position at which `pat` stands in `text`, where it stands
/// anywhere.
pub open spec fn first_index(text: Seq<char>, pat: Seq<char>) -> int {
    choose|i: int| first_occurrence(text, pat, i)
}

/// The spans that show `text` with the first occurrence of `pattern`
/// marked. Where `pattern` does not occur, `text` is one unmarked span.
pub open spec fn highlighted(text: Seq<char>, pattern: Seq<char>) -> Seq<SpanView> {
    if exists|i: int| occurs_at(text, pattern, i) {
        marked(text, first_index(text, pattern), pattern.len() as int)
    } else {
        seq![SpanView { content: text, style: Style::plain() }]
    }
}

/// One line that shows `text` with the first occurrence of `pattern` in bold
/// green. Where `pattern` does not occur, the line is `text` unmarked.
pub fn highlight_match(text: &str, pattern: &str) -> (result: Vec<Line>)
    ensures
        line_views(result@) == seq![highlighted(text@, pattern@)],
{
    let chars = chars_of(text);
    let pat = chars_of(pattern);
    let mut spans: Vec<Span> = Vec::new();
    match find(&chars, &pat) {
        Some(index) => {
            let end = index + pat.len();
            if index > 0 {
                spans.push(span(&chars, 0, index, Style { fg: None, bold: false }));
            }
            spans.push(span(&chars, index, end, Style { fg: Some(Color::Green), bold: true }));
            if end < chars.len() {
                spans.push(span(&chars, end, chars.len(), Style { fg: None, bold: false }));
            }
            let line = Line { spans };
            assert(line@ =~= marked(text@, index as int, pattern@.len() as int));
            proof {
                assert(first_occurrence(text@, pattern@, index as int));
                let chosen = first_index(text@, pattern@);
                assert(first_occurrence(text@, pattern@, chosen));
                if chosen < index {
                    assert(!occurs_at(text@, pattern@, chosen));
                } else if index < chosen {
                    assert(!occurs_at(text@, pattern@, index as int));
                }
            }
            let mut result: Vec<Line> = Vec::new();
            result.push(line);
            assert(line_views(result@) =~= seq![highlighted(text@, pattern@)]);
            result
        },
        None => {
            spans.push(span(&chars, 0, chars.len(), Style { fg: None, bold: false }));
            assert(chars@.subrange(0, chars@.len() as int) =~= text@);
            let line = Line { spans };
            assert(line@ =~= seq![SpanView { content: text@, style: Style::plain() }]);
            let mut result: Vec<Line> = Vec::new();
            result.push(line);
            assert(line_views(result@) =~= seq![highlighted(text@, pattern@)]);
            result
        },
    }
}

/// What became of a line between the original and the replacement.
#[derive(Clone, Copy, Debug, PartialEq, Eq, Structural)]
pub enum DiffTag {
    Unchanged,
    Removed,
    Added,
}

/// One line of a diff.
#[derive(Clone, Debug, PartialEq, Eq)]
pub struct DiffLine {
    pub tag: DiffTag,
    pub text: String,
}

/// A diff line as the rules see it.
pub ghost struct DiffEntry {
    pub tag: DiffTag,
    pub text: Seq<char>,
}

impl View for DiffLine {
    type V = DiffEntry;

    open spec fn view(&self) -> DiffEntry {
        DiffEntry { tag: self.tag, text: self.text@ }
    }
}

/// The views of the lines of `lines`, one for one.
pub open spec fn diff_views(lines: Seq<DiffLine>) -> Seq<DiffEntry> {
    lines.map_values(|l: DiffLine| l@)
}

/// What the diff shows for position `i`: the line itself where both sides
/// have it and agree, the original's line as removed and then the
/// replacement's as added where both have one and they differ, and the one
/// line that exists where only one side is that long.
pub open spec fn diff_pair(a: Seq<Seq<char>>, b: Seq<Seq<char>>, i: int) -> Seq<DiffEntry> {
    if i < a.len() && i < b.len() {
        if a[i] == b[i] {
            seq![DiffEntry { tag: DiffTag::Unchanged, text: a[i] }]
        } else {
            seq![
                DiffEntry { tag: DiffTag::Removed, text: a[i] },
                DiffEntry { tag: DiffTag::Added, text: b[i] },
            ]
        }
    } else if i < a.len() {
        seq![DiffEntry { tag: DiffTag::Removed, text: a[i] }]
    } else if i < b.len() {
        seq![DiffEntry { tag: DiffTag::Added, text: b[i] }]
    } else {
        seq![]
    }
}

/// The diff of the first `n` positions.
pub open spec fn diff_upto(a: Seq<Seq<char>>, b: Seq<Seq<char>>, n: nat) -> Seq<DiffEntry>
    decreases n,
{
    if n == 0 {
        seq![]
    } else {
        diff_upto(a, b, (n - 1) as nat) + diff_pair(a, b, n - 1)
    }
}

/// The positional diff of the lines `a` against the lines `b`: line `i` of
/// one is held against line `i` of the other, and nothing is aligned.
pub open spec fn diff_of(a: Seq<Seq<char>>, b: Seq<Seq<char>>) -> Seq<DiffEntry> {
    diff_upto(a, b, if a.len() >= b.len() { a.len() } else { b.len() })
}

/// Whether `a` and `b` hold the same characters.
fn same_chars(a: &Vec<char>, b: &Vec<char>) -> (eq: bool)
    ensures
        eq == (a@ == b@),
{
    if a.len() != b.len() {
        return false;
    }
    let mut i: usize = 0;
    while i < a.len()
        invariant
            i <= a.len() == b.len(),
            forall|j: int| 0 <= j < i ==> a@[j] == b@[j],
        decreases a.len() - i,
    {
        if a[i] != b[i] {
            return false;
        }
        i += 1;
    }
    assert(a@ =~= b@);
    true
}

/// The diff line of `chars` with the tag `tag`.
fn diff_line(tag: DiffTag, chars: &Vec<char>) -> (l: DiffLine)
    ensures
        l@ == (DiffEntry { tag, text: chars@ }),
{
    DiffLine { tag, text: string_of(chars) }
}

/// The positional diff of `original` against `replaced`, line by line.
pub fn diff_lines(original: &str, replaced: &str) -> (result: Vec<DiffLine>)
    ensures
        diff_views(result@) == diff_of(lines_of(original@), lines_of(replaced@)),
{
    let a_chars = chars_of(original);
    let b_chars = chars_of(replaced);
    let a = lines(&a_chars);
    let b = lines(&b_chars);
    let ghost sa = lines_of(original@);
    let ghost sb = lines_of(replaced@);
    let n = if a.len() >= b.len() {
        a.len()
    } else {
        b.len()
    };
    let mut result: Vec<DiffLine> = Vec::new();
    let mut i: usize = 0;
    while i < n
        invariant
            i <= n,
            n == if a.len() >= b.len() {
                a.len()
            } else {
                b.len()
            },
            views(a@) == sa,
            views(b@) == sb,
            diff_views(result@) == diff_upto(sa, sb, i as nat),
        decreases n - i,
    {
        let ghost before = result@;
        if i < a.len() && i < b.len() {
            assert(a[i as int]@ == sa[i as int]);
            assert(b[i as int]@ == sb[i as int]);
            if same_chars(&a[i], &b[i]) {
                result.push(diff_line(DiffTag::Unchanged, &a[i]));
                assert(diff_views(result@) =~= diff_views(before) + diff_pair(sa, sb, i as int));
            } else {
                result.push(diff_line(DiffTag::Removed, &a[i]));
                result.push(diff_line(DiffTag::Added, &b[i]));
                assert(diff_views(result@) =~= diff_views(before) + diff_pair(sa, sb, i as int));
            }
        } else if i < a.len() {
            assert(a[i as int]@ == sa[i as int]);
            result.push(diff_line(DiffTag::Removed, &a[i]));
            assert(diff_views(result@) =~= diff_views(before) + diff_pair(sa, sb, i as int));
        } else {
            assert(b[i as int]@ == sb[i as int]);
            result.push(diff_line(DiffTag::Added, &b[i]));
            assert(diff_views(result@) =~= diff_views(before) + diff_pair(sa, sb, i as int));
        }
        i += 1;
    }
    result
}

/// How a diff line is drawn: an unchanged line as it is, a removed line in
/// red behind the marker `- `, an added line in green behind the marker `+ `.
pub open spec fn rendered(entry: DiffEntry) -> Seq<SpanView> {
    match entry.tag {
        DiffTag::Unchanged => seq![SpanView { content: entry.text, style: Style::plain() }],
        DiffTag::Removed => seq![
            SpanView { content: seq!['-', ' '], style: Style::colored(Color::Red) },
            SpanView { content: entry.text, style: Style::colored(Color::Red) },
        ],
        DiffTag::Added => seq![
            SpanView { content: seq!['+', ' '], style: Style::colored(Color::Green) },
            SpanView { content: entry.text, style: Style::colored(Color::Green) },
        ],
    }
}

/// The marker that stands before a changed line: `sign` and a blank.
fn marker(sign: char, style: Style) -> (s: Span)
    ensures
        s@ == (SpanView { content: seq![sign, ' '], style }),
{
    let mut content = String::new();
    content.push(sign);
    content.push(' ');
    assert(content@ =~= seq![sign, ' ']);
    Span { content, style }
}

/// Draws one diff line.
fn render(line: &DiffLine) -> (out: Line)
    ensures
        out@ == rendered(line@),
{
    let mut spans: Vec<Span> = Vec::new();
    match line.tag {
        DiffTag::Unchanged => {
            spans.push(Span { content: line.text.clone(), style: Style { fg: None, bold: false } });
        },
        DiffTag::Removed => {
            let style = Style { fg: Some(Color::Red), bold: false };
            spans.push(marker('-', style));
            spans.push(Span { content: line.text.clone(), style });
        },
        DiffTag::Added => {
            let style = Style { fg: Some(Color::Green), bold: false };
            spans.push(marker('+', style));
            spans.push(Span { content: line.text.clone(), style });
        },
    }
    let out = Line { spans };
    assert(out@ =~= rendered(line@));
    out
}

/// The positional diff of `original` against `replaced`, drawn line by line.
pub fn highlight_diff_lines(original: String, replaced: String) -> (result: Vec<Line>)
    ensures
        line_views(result@) == diff_of(lines_of(original@), lines_of(replaced@)).map_values(
            |e: DiffEntry| rendered(e),
        ),
{
    let diff = diff_lines(original.as_str(), replaced.as_str());
    let ghost entries = diff_views(diff@);
    let mut result: Vec<Line> = Vec::new();
    let mut i: usize = 0;
    while i < diff.len()
        invariant
            i <= diff.len(),
            entries == diff_views(diff@),
            line_views(result@) == entries.take(i as int).map_values(|e: DiffEntry| rendered(e)),
        decreases diff.len() - i,
    {
        let ghost before = result@;
        result.push(render(&diff[i]));
        assert(line_views(result@) =~= line_views(before).push(rendered(entries[i as int])));
        assert(entries.take(i + 1) =~= entries.take(i as int).push(entries[i as int]));
        assert(entries.take(i + 1).map_values(|e: DiffEntry| rendered(e)) =~= entries.take(
            i as int,
        ).map_values(|e: DiffEntry| rendered(e)).push(rendered(entries[i as int])));
        i += 1;
    }
    assert(entries.take(i as int) =~= entries);
    result
}

/// How many leading bytes of a file are looked at to tell text from binary.
pub const SNIFF_LEN: usize = 4096;

/// Whether a file that begins with `prefix` is taken for text: none of its
/// first `SNIFF_LEN` bytes is a NUL byte.
pub fn is_text_file(prefix: &[u8]) -> (text: bool)
    ensures
        text == forall|i: int| 0 <= i < prefix@.len() && i < SNIFF_LEN ==> prefix@[i] != 0,
{
    let n = if prefix.len() < SNIFF_LEN {
        prefix.len()
    } else {
        SNIFF_LEN
    };
    let mut i: usize = 0;
    while i < n
        invariant
            i <= n <= prefix@.len(),
            n <= SNIFF_LEN,
            n == prefix@.len() || n == SNIFF_LEN,
            forall|j: int| 0 <= j < i ==> prefix@[j] != 0,
        decreases n - i,
    {
        if prefix[i] == 0 {
            return false;
        }
        i += 1;
    }
    true
}

/// `content` with every match of the regular expression `from_pattern`
/// replaced by what the template `to_replacement` gives for it. A pattern
/// that does not compile matches nothing: the content comes back unchanged.
pub fn apply_substitution_partial(content: &str, from_pattern: &str, to_replacement: &str) -> (out:
    String)
    ensures
        out@ == crate::substitution::substituted(content@, from_pattern@, to_replacement@),
{
    match regex::Regex::new(from_pattern) {
        Ok(re) => crate::substitution::replace_matches(&re, content, to_replacement),
        Err(_) => content.to_owned(),
    }
}

} // verus!
