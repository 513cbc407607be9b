//! Character-level text helpers: every function works on sequences of
//! `char`, so that positions are character positions and never byte offsets.

use vstd::prelude::*;

verus! {

/// `String::push` of the standard library: appends one character to the end
/// of the string and changes nothing else.
pub assume_specification[ String::push ](s: &mut String, ch: char)
    ensures
        final(s)@ == old(s)@.push(ch),
;

/// The characters of `s`, in order.
pub fn chars_of(s: &str) -> (v: Vec<char>)
    ensures
        v@ == s@,
{
    let mut v: Vec<char> = Vec::new();
    for c in it: s.chars()
        invariant
            it.seq() == s@,
            v@ == it.seq().take(it.index() as int),
    {
        v.push(c);
        assert(it.seq().take(it.index() + 1) =~= it.seq().take(it.index() as int).push(c));
    }
    assert(v@ =~= s@);
    v
}

/// The string made of the characters of `chars`, in order.
pub fn string_of(chars: &Vec<char>) -> (s: String)
    ensures
        s@ == chars@,
{
    let mut s = String::new();
    let mut i: usize = 0;
    while i < chars.len()
        invariant
            i <= chars.len(),
            s@ == chars@.take(i as int),
        decreases chars.len() - i,
    {
        s.push(chars[i]);
        assert(chars@.take(i + 1) =~= chars@.take(i as int).push(chars@[i as int]));
        i += 1;
    }
    assert(chars@.take(i as int) =~= chars@);
    s
}

/// The characters `chars[from..to]` as a vector of their own.
pub fn slice_of(chars: &Vec<char>, from: usize, to: usize) -> (v: Vec<char>)
    requires
        from <= to <= chars.len(),
    ensures
        v@ == chars@.subrange(from as int, to as int),
{
    let mut v: Vec<char> = Vec::new();
    let mut i: usize = from;
    while i < to
        invariant
            from <= i <= to <= chars.len(),
            v@ == chars@.subrange(from as int, i as int),
        decreases to - i,
    {
        v.push(chars[i]);
        assert(chars@.subrange(from as int, i + 1) =~= chars@.subrange(from as int, i as int).push(
            chars@[i as int],
        ));
        i += 1;
    }
    v
}

/// Appends the characters of `tail` to `out`.
pub fn extend(out: &mut Vec<char>, tail: &Vec<char>)
    ensures
        final(out)@ == old(out)@ + tail@,
{
    let mut i: usize = 0;
    while i < tail.len()
        invariant
            i <= tail.len(),
            out@ == old(out)@ + tail@.take(i as int),
        decreases tail.len() - i,
    {
        out.push(tail[i]);
        assert(tail@.take(i + 1) =~= tail@.take(i as int).push(tail@[i as int]));
        assert(old(out)@ + tail@.take(i + 1) =~= (old(out)@ + tail@.take(i as int)).push(
            tail@[i as int],
        ));
        i += 1;
    }
    assert(tail@.take(i as int) =~= tail@);
}

/// Whether `c` has the Unicode property White_Space.
pub open spec fn is_space(c: char) -> bool {
    let n = c as u32;
    ||| 0x09 <= n <= 0x0D
    ||| n == 0x20
    ||| n == 0x85
    ||| n == 0xA0
    ||| n == 0x1680
    ||| 0x2000 <= n <= 0x200A
    ||| n == 0x2028
    ||| n == 0x2029
    ||| n == 0x202F
    ||| n == 0x205F
    ||| n == 0x3000
}

/// Whether `c` is white space.
pub fn is_whitespace(c: char) -> (b: bool)
    ensures
        b == is_space(c),
{
    let n: u32 = c as u32;
    (0x09 <= n && n <= 0x0D) || n == 0x20 || n == 0x85 || n == 0xA0 || n == 0x1680 || (0x2000 <= n
        && n <= 0x200A) || n == 0x2028 || n == 0x2029 || n == 0x202F || n == 0x205F || n == 0x3000
}

/// A text is blank when it holds nothing but white space.
pub open spec fn is_blank(s: Seq<char>) -> bool {
    forall|i: int| 0 <= i < s.len() ==> is_space(#[trigger] s[i])
}

/// Whether `chars` holds nothing but white space.
pub fn blank(chars: &Vec<char>) -> (b: bool)
    ensures
        b == is_blank(chars@),
{
    let mut i: usize = 0;
    while i < chars.len()
        invariant
            i <= chars.len(),
            forall|j: int| 0 <= j < i ==> is_space(#[trigger] chars@[j]),
        decreases chars.len() - i,
    {
        if !is_whitespace(chars[i]) {
            return false;
        }
        i += 1;
    }
    true
}

/// `s` without its leading white space.
pub open spec fn trim_start(s: Seq<char>) -> Seq<char>
    decreases s.len(),
{
    if s.len() > 0 && is_space(s[0]) {
        trim_start(s.drop_first())
    } else {
        s
    }
}

/// `s` without its trailing white space.
pub open spec fn trim_end(s: Seq<char>) -> Seq<char>
    decreases s.len(),
{
    if s.len() > 0 && is_space(s.last()) {
        trim_end(s.drop_last())
    } else {
        s
    }
}

/// `s` without leading and trailing white space.
pub open spec fn trim(s: Seq<char>) -> Seq<char> {
    trim_end(trim_start(s))
}

/// `chars` without the white space at its two ends.
pub fn trimmed(chars: &Vec<char>) -> (v: Vec<char>)
    ensures
        v@ == trim(chars@),
{
    let n = chars.len();
    let mut a: usize = 0;
    assert(chars@.skip(0) =~= chars@);
    while a < n && is_whitespace(chars[a])
        invariant
            a <= n == chars.len(),
            trim_start(chars@) == trim_start(chars@.skip(a as int)),
        decreases n - a,
    {
        assert(chars@.skip(a as int).drop_first() =~= chars@.skip(a + 1));
        a += 1;
    }
    assert(trim_start(chars@) == chars@.skip(a as int));
    assert(chars@.skip(a as int) =~= chars@.subrange(a as int, n as int));
    let mut b: usize = n;
    while b > a && is_whitespace(chars[b - 1])
        invariant
            a <= b <= n == chars.len(),
            trim_end(chars@.subrange(a as int, n as int)) == trim_end(
                chars@.subrange(a as int, b as int),
            ),
        decreases b,
    {
        assert(chars@.subrange(a as int, b as int).drop_last() =~= chars@.subrange(
            a as int,
            b - 1,
        ));
        b -= 1;
    }
    slice_of(chars, a, b)
}

/// The pieces of `s` between occurrences of `sep`. There is always one piece
/// more than there are separators, so the empty text has one empty piece.
pub open spec fn split_on(s: Seq<char>, sep: char) -> Seq<Seq<char>>
    decreases s.len(),
{
    if s.len() == 0 {
        seq![Seq::empty()]
    } else {
        let before = split_on(s.drop_last(), sep);
        if s.last() == sep {
            before.push(Seq::empty())
        } else {
            before.drop_last().push(before.last().push(s.last()))
        }
    }
}

/// Splitting gives at least one piece.
pub proof fn lemma_split_on_nonempty(s: Seq<char>, sep: char)
    ensures
        split_on(s, sep).len() >= 1,
    decreases s.len(),
{
    if s.len() > 0 {
        lemma_split_on_nonempty(s.drop_last(), sep);
    }
}

/// The views of the vectors of `v`, one for one.
pub open spec fn views(v: Seq<Vec<char>>) -> Seq<Seq<char>> {
    v.map_values(|p: Vec<char>| p@)
}

/// The pieces of `chars` between occurrences of `sep`.
pub fn split(chars: &Vec<char>, sep: char) -> (pieces: Vec<Vec<char>>)
    ensures
        views(pieces@) == split_on(chars@, sep),
{
    let mut pieces: Vec<Vec<char>> = Vec::new();
    let mut current: Vec<char> = Vec::new();
    let mut i: usize = 0;
    assert(chars@.take(0) =~= Seq::<char>::empty());
    assert(views(pieces@).push(current@) =~= seq![Seq::<char>::empty()]);
    while i < chars.len()
        invariant
            i <= chars.len(),
            views(pieces@).push(current@) == split_on(chars@.take(i as int), sep),
        decreases chars.len() - i,
    {
        let ghost before = split_on(chars@.take(i as int), sep);
        let c = chars[i];
        proof {
            assert(chars@.take(i + 1).drop_last() =~= chars@.take(i as int));
            assert(chars@.take(i + 1).last() == c);
            assert(before.drop_last() =~= views(pieces@));
            assert(before.last() == current@);
        }
        if c == sep {
            let ghost old_pieces = pieces@;
            pieces.push(current);
            current = Vec::new();
            assert(views(pieces@) =~= views(old_pieces).push(before.last()));
        } else {
            current.push(c);
        }
        i += 1;
    }
    assert(chars@.take(i as int) =~= chars@);
    let ghost old_pieces = pieces@;
    let ghost last = current@;
    pieces.push(current);
    assert(views(pieces@) =~= views(old_pieces).push(last));
    pieces
}

/// `line` without one trailing carriage return, if it has one.
pub open spec fn strip_cr(line: Seq<char>) -> Seq<char> {
    if line.len() > 0 && line.last() == '\r' {
        line.drop_last()
    } else {
        line
    }
}

/// The lines of `s`. A line ends at a line feed, or at a carriage return
/// directly followed by a line feed; the terminator is no part of the line.
/// What follows the last line feed is a line only if it is not empty, and it
/// keeps a carriage return that it ends with.
pub open spec fn lines_of(s: Seq<char>) -> Seq<Seq<char>> {
    let pieces = split_on(s, '\n');
    let terminated = pieces.drop_last().map_values(|l: Seq<char>| strip_cr(l));
    if pieces.last().len() == 0 {
        terminated
    } else {
        terminated.push(pieces.last())
    }
}

/// The lines of `chars`.
pub fn lines(chars: &Vec<char>) -> (result: Vec<Vec<char>>)
    ensures
        views(result@) == lines_of(chars@),
{
    let pieces = split(chars, '\n');
    proof {
        lemma_split_on_nonempty(chars@, '\n');
    }
    let ghost spec_pieces = split_on(chars@, '\n');
    let ghost terminated = spec_pieces.drop_last().map_values(|l: Seq<char>| strip_cr(l));
    let mut result: Vec<Vec<char>> = Vec::new();
    let n = pieces.len();
    let mut i: usize = 0;
    while i + 1 < n
        invariant
            i < n == pieces.len(),
            views(pieces@) == spec_pieces,
            terminated == spec_pieces.drop_last().map_values(|l: Seq<char>| strip_cr(l)),
            views(result@) == terminated.take(i as int),
        decreases n - i,
    {
        let piece = &pieces[i];
        assert(piece@ == spec_pieces[i as int]);
        let len = piece.len();
        let line = if len > 0 && piece[len - 1] == '\r' {
            slice_of(piece, 0, len - 1)
        } else {
            slice_of(piece, 0, len)
        };
        assert(line@ =~= strip_cr(piece@));
        let ghost old_result = result@;
        result.push(line);
        assert(views(result@) =~= views(old_result).push(strip_cr(piece@)));
        assert(terminated.take(i + 1) =~= terminated.take(i as int).push(terminated[i as int]));
        i += 1;
    }
    assert(terminated.take(i as int) =~= terminated);
    let last = &pieces[n - 1];
    assert(last@ == spec_pieces.last());
    if last.len() > 0 {
        let ghost old_result = result@;
        let copy = slice_of(last, 0, last.len());
        assert(copy@ =~= last@);
        result.push(copy);
        assert(views(result@) =~= views(old_result).push(last@));
    }
    result
}

/// Whether `pat` stands in `text` at position `i`.
pub open spec fn occurs_at(text: Seq<char>, pat: Seq<char>, i: int) -> bool {
    0 <= i && i + pat.len() <= text.len() && text.subrange(i, i + pat.len()) == pat
}

/// Whether `pat` stands in `text` at position `i`.
pub fn matches_at(text: &Vec<char>, pat: &Vec<char>, i: usize) -> (b: bool)
    ensures
        b == occurs_at(text@, pat@, i as int),
{
    if pat.len() > text.len() || i > text.len() - pat.len() {
        return false;
    }
    let mut k: usize = 0;
    while k < pat.len()
        invariant
            k <= pat.len(),
            i + pat.len() <= text.len(),
            forall|j: int| 0 <= j < k ==> text@[i + j] == pat@[j],
        decreases pat.len() - k,
    {
        if text[i + k] != pat[k] {
            assert(text@.subrange(i as int, i + pat.len())[k as int] != pat@[k as int]);
            return false;
        }
        k += 1;
    }
    assert(text@.subrange(i as int, i + pat.len()) =~= pat@);
    true
}

/// The first position at which `pat` stands in `text`, if there is one.
pub fn find(text: &Vec<char>, pat: &Vec<char>) -> (r: Option<usize>)
    ensures
        match r {
            Some(i) => occurs_at(text@, pat@, i as int) && forall|j: int|
                0 <= j < i ==> !occurs_at(text@, pat@, j),
            None => forall|j: int| !occurs_at(text@, pat@, j),
        },
{
    if pat.len() > text.len() {
        return None;
    }
    let last = text.len() - pat.len();
    let mut i: usize = 0;
    loop
        invariant
            last == text.len() - pat.len(),
            i <= last,
            forall|j: int| 0 <= j < i ==> !occurs_at(text@, pat@, j),
        decreases last - i,
    {
        if matches_at(text, pat, i) {
            return Some(i);
        }
        if i == last {
            return None;
        }
        i += 1;
    }
}

/// `s` with every occurrence of `from` replaced by `to`. Occurrences are
/// taken from left to right and do not overlap. An empty `from` occurs
/// nowhere.
pub open spec fn replace_occurrences(s: Seq<char>, from: Seq<char>, to: Seq<char>) -> Seq<char>
    decreases s.len(),
{
    if from.len() == 0 || s.len() < from.len() {
        s
    } else if s.subrange(0, from.len() as int) == from {
        to + replace_occurrences(s.skip(from.len() as int), from, to)
    } else {
        seq![s[0]] + replace_occurrences(s.skip(1), from, to)
    }
}

/// `s` with every occurrence of `from` replaced by `to`.
pub fn replace(s: &Vec<char>, from: &Vec<char>, to: &Vec<char>) -> (out: Vec<char>)
    ensures
        out@ == replace_occurrences(s@, from@, to@),
{
    let mut out: Vec<char> = Vec::new();
    let n = s.len();
    let m = from.len();
    if m == 0 || n < m {
        extend(&mut out, s);
        assert(out@ =~= s@);
        return out;
    }
    let mut i: usize = 0;
    assert(s@.skip(0) =~= s@);
    while i < n && n - i >= m
        invariant
            i <= n == s.len(),
            m == from.len(),
            m > 0,
            replace_occurrences(s@, from@, to@) == out@ + replace_occurrences(
                s@.skip(i as int),
                from@,
                to@,
            ),
        decreases n - i,
    {
        let ghost rest = s@.skip(i as int);
        if matches_at(s, from, i) {
            proof {
                assert(rest.subrange(0, m as int) =~= s@.subrange(i as int, i + m));
                assert(rest.skip(m as int) =~= s@.skip(i + m));
                assert(out@ + (to@ + replace_occurrences(s@.skip(i + m), from@, to@)) =~= (out@
                    + to@) + replace_occurrences(s@.skip(i + m), from@, to@));
            }
            extend(&mut out, to);
            i += m;
        } else {
            proof {
                assert(rest.subrange(0, m as int) =~= s@.subrange(i as int, i + m));
                assert(rest.skip(1) =~= s@.skip(i + 1));
                assert(out@ + (seq![rest[0]] + replace_occurrences(s@.skip(i + 1), from@, to@))
                    =~= out@.push(s@[i as int]) + replace_occurrences(
                    s@.skip(i + 1),
                    from@,
                    to@,
                ));
            }
            out.push(s[i]);
            i += 1;
        }
    }
    let ghost before = out@;
    let tail = slice_of(s, i, n);
    assert(tail@ =~= s@.skip(i as int));
    extend(&mut out, &tail);
    out
}

/// The character that stands for the decimal digit `d`.
pub open spec fn digit(d: int) -> char {
    if d == 0 {
        '0'
    } else if d == 1 {
        '1'
    } else if d == 2 {
        '2'
    } else if d == 3 {
        '3'
    } else if d == 4 {
        '4'
    } else if d == 5 {
        '5'
    } else if d == 6 {
        '6'
    } else if d == 7 {
        '7'
    } else if d == 8 {
        '8'
    } else {
        '9'
    }
}

/// `n` written in decimal, without leading zeros.
pub open spec fn decimal(n: nat) -> Seq<char>
    decreases n,
{
    if n < 10 {
        seq![digit(n as int)]
    } else {
        decimal(n / 10).push(digit((n % 10) as int))
    }
}

/// The character of one decimal digit.
fn digit_char(d: usize) -> (c: char)
    requires
        d < 10,
    ensures
        c == digit(d as int),
{
    if d == 0 {
        '0'
    } else if d == 1 {
        '1'
    } else if d == 2 {
        '2'
    } else if d == 3 {
        '3'
    } else if d == 4 {
        '4'
    } else if d == 5 {
        '5'
    } else if d == 6 {
        '6'
    } else if d == 7 {
        '7'
    } else if d == 8 {
        '8'
    } else {
        '9'
    }
}

/// `n` written in decimal.
pub fn decimal_digits(n: usize) -> (v: Vec<char>)
    ensures
        v@ == decimal(n as nat),
    decreases n,
{
    if n < 10 {
        let mut v: Vec<char> = Vec::new();
        v.push(digit_char(n));
        assert(v@ =~= seq![digit(n as int)]);
        v
    } else {
        let mut v = decimal_digits(n / 10);
        v.push(digit_char(n % 10));
        v
    }
}

/// The views of the strings of `v`, one for one.
pub open spec fn string_views(v: Seq<String>) -> Seq<Seq<char>> {
    v.map_values(|s: String| s@)
}

/// Filtering nothing leaves nothing.
pub proof fn lemma_filter_empty(pred: spec_fn(Seq<char>) -> bool)
    ensures
        Seq::<Seq<char>>::empty().filter(pred) == Seq::<Seq<char>>::empty(),
{
    reveal(Seq::filter);
}

/// Filtering a sequence with one more element keeps that element behind the
/// others exactly if it meets the test.
pub proof fn lemma_filter_push(s: Seq<Seq<char>>, x: Seq<char>, pred: spec_fn(Seq<char>) -> bool)
    ensures
        s.push(x).filter(pred) == if pred(x) {
            s.filter(pred).push(x)
        } else {
            s.filter(pred)
        },
{
    reveal(Seq::filter);
    assert(s.push(x).drop_last() =~= s);
}

/// Filtering the first `i + 1` elements, in terms of filtering the first `i`.
pub proof fn lemma_filter_step(s: Seq<Seq<char>>, i: int, pred: spec_fn(Seq<char>) -> bool)
    requires
        0 <= i < s.len(),
    ensures
        s.take(i + 1).filter(pred) == if pred(s[i]) {
            s.take(i).filter(pred).push(s[i])
        } else {
            s.take(i).filter(pred)
        },
{
    assert(s.take(i + 1) =~= s.take(i).push(s[i]));
    lemma_filter_push(s.take(i), s[i], pred);
}

/// What filtering keeps: an element is in the filtered sequence exactly if
/// it is in the sequence and meets the test.
pub proof fn lemma_filter_members(s: Seq<Seq<char>>, pred: spec_fn(Seq<char>) -> bool, x: Seq<char>)
    ensures
        s.filter(pred).contains(x) <==> s.contains(x) && pred(x),
    decreases s.len(),
{
    reveal(Seq::filter);
    if s.len() > 0 {
        let front = s.drop_last();
        lemma_filter_members(front, pred, x);
        let kept = s.filter(pred);
        if kept.contains(x) {
            let i = choose|i: int| 0 <= i < kept.len() && kept[i] == x;
            if pred(s.last()) && i == kept.len() - 1 {
                assert(s[s.len() - 1] == x);
            } else {
                assert(front.filter(pred)[i] == x);
                assert(front.filter(pred).contains(x));
                let j = choose|j: int| 0 <= j < front.len() && front[j] == x;
                assert(s[j] == x);
            }
        }
        if s.contains(x) && pred(x) {
            let j = choose|j: int| 0 <= j < s.len() && s[j] == x;
            if j == s.len() - 1 {
                assert(kept[kept.len() - 1] == x);
            } else {
                assert(front[j] == x);
                assert(front.contains(x));
                let i = choose|i: int|
                    0 <= i < front.filter(pred).len() && front.filter(pred)[i] == x;
                assert(kept[i] == x);
            }
        }
    }
}

} // verus!
