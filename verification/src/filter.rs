//! The filter engine: which files of the index pass the glob query and the
//! content query, the memo of the last answer, and the caches behind it.

use crate::cache::{ContentCache, ReadError};
use crate::glob::{glob_passes, GlobFilter};
use crate::pattern::{regex_compiles, regex_is_match, regex_origin, RegexCache};
use crate::text::{
    blank, chars_of, is_blank, lemma_filter_empty, lemma_filter_members, lemma_filter_step,
    string_views,
};
use regex::Regex;
use vstd::prelude::*;

verus! {

/// The answer to one pair of queries.
pub struct FilterMemo {
    pub glob_query: String,
    pub content_query: String,
    pub files: Vec<String>,
}

/// A memo as the rules see it.
pub ghost struct MemoView {
    pub glob_query: Seq<char>,
    pub content_query: Seq<char>,
    pub files: Seq<Seq<char>>,
}

impl View for FilterMemo {
    type V = MemoView;

    open spec fn view(&self) -> MemoView {
        MemoView {
            glob_query: self.glob_query@,
            content_query: self.content_query@,
            files: string_views(self.files@),
        }
    }
}

/// The view of a memo that may be missing.
pub open spec fn memo_view(memo: Option<FilterMemo>) -> Option<MemoView> {
    match memo {
        Some(m) => Some(m@),
        None => None,
    }
}

/// Whether the file at `path` passes the content query, given the texts in
/// `contents`. The empty query asks nothing. Any other query is a regular
/// expression that the file's text must match; a file whose text is not
/// known does not pass, and where the query does not compile no file does.
pub open spec fn content_passes(
    content_query: Seq<char>,
    contents: Map<Seq<char>, Seq<char>>,
    path: Seq<char>,
) -> bool {
    content_query.len() == 0 || (regex_compiles(content_query) && contents.contains_key(path)
        && regex_is_match(content_query, contents[path]))
}

/// Whether the file at `path` passes both queries.
pub open spec fn passes(
    glob_query: Seq<char>,
    content_query: Seq<char>,
    contents: Map<Seq<char>, Seq<char>>,
    path: Seq<char>,
) -> bool {
    glob_passes(glob_query, path) && content_passes(content_query, contents, path)
}

/// The files of the index that pass both queries, in the order of the index.
pub open spec fn computed(
    files: Seq<Seq<char>>,
    glob_query: Seq<char>,
    content_query: Seq<char>,
    contents: Map<Seq<char>, Seq<char>>,
) -> Seq<Seq<char>> {
    files.filter(|path: Seq<char>| passes(glob_query, content_query, contents, path))
}

/// Queries that are both blank ask for the whole index.
pub open spec fn asks_nothing(glob_query: Seq<char>, content_query: Seq<char>) -> bool {
    is_blank(glob_query) && is_blank(content_query)
}

/// Whether `memo` holds the answer to exactly these two queries.
pub open spec fn memo_hit(
    memo: Option<MemoView>,
    glob_query: Seq<char>,
    content_query: Seq<char>,
) -> bool {
    memo matches Some(m) && m.glob_query == glob_query && m.content_query == content_query
}

/// What the filter answers: the whole index where the queries ask nothing,
/// else the memo's list where the memo is for these queries, else the files
/// that pass.
pub open spec fn filtered(
    files: Seq<Seq<char>>,
    glob_query: Seq<char>,
    content_query: Seq<char>,
    memo: Option<MemoView>,
    contents: Map<Seq<char>, Seq<char>>,
) -> Seq<Seq<char>> {
    if asks_nothing(glob_query, content_query) {
        files
    } else if memo_hit(memo, glob_query, content_query) {
        memo->0.files
    } else {
        computed(files, glob_query, content_query, contents)
    }
}

/// The memo that the filter leaves: the one it found where it computed
/// nothing, else the answer it computed.
pub open spec fn memo_after(
    files: Seq<Seq<char>>,
    glob_query: Seq<char>,
    content_query: Seq<char>,
    memo: Option<MemoView>,
    contents: Map<Seq<char>, Seq<char>>,
) -> Option<MemoView> {
    if asks_nothing(glob_query, content_query) || memo_hit(memo, glob_query, content_query) {
        memo
    } else {
        Some(
            MemoView {
                glob_query,
                content_query,
                files: computed(files, glob_query, content_query, contents),
            },
        )
    }
}

/// Whether the filter has to compile the content query to answer.
pub open spec fn compiles_query(
    glob_query: Seq<char>,
    content_query: Seq<char>,
    memo: Option<MemoView>,
) -> bool {
    !asks_nothing(glob_query, content_query) && !memo_hit(memo, glob_query, content_query)
        && content_query.len() > 0
}

/// The patterns that the regex cache holds once the filter has answered.
pub open spec fn patterns_after(
    glob_query: Seq<char>,
    content_query: Seq<char>,
    memo: Option<MemoView>,
    patterns: Set<Seq<char>>,
) -> Set<Seq<char>> {
    if compiles_query(glob_query, content_query, memo) && regex_compiles(content_query) {
        patterns.insert(content_query)
    } else {
        patterns
    }
}

/// Whether the text of the file at `path` decides if it passes, and is not
/// known.
pub open spec fn lacks_content(
    glob_query: Seq<char>,
    content_query: Seq<char>,
    contents: Map<Seq<char>, Seq<char>>,
    path: Seq<char>,
) -> bool {
    content_query.len() > 0 && regex_compiles(content_query) && glob_passes(glob_query, path)
        && !contents.contains_key(path)
}

/// The files that have to be read before the filter can answer for them:
/// none where the filter computes nothing, else those whose text decides
/// and is not known.
pub open spec fn unread(
    files: Seq<Seq<char>>,
    glob_query: Seq<char>,
    content_query: Seq<char>,
    memo: Option<MemoView>,
    contents: Map<Seq<char>, Seq<char>>,
) -> Seq<Seq<char>> {
    if asks_nothing(glob_query, content_query) || memo_hit(memo, glob_query, content_query) {
        Seq::empty()
    } else {
        files.filter(|path: Seq<char>| lacks_content(glob_query, content_query, contents, path))
    }
}

/// A copy of `list`.
pub fn clone_strings(list: &[String]) -> (copy: Vec<String>)
    ensures
        string_views(copy@) == string_views(list@),
{
    let mut copy: Vec<String> = Vec::new();
    let mut i: usize = 0;
    while i < list.len()
        invariant
            i <= list.len(),
            string_views(copy@) == string_views(list@).take(i as int),
        decreases list.len() - i,
    {
        let ghost before = copy@;
        copy.push(list[i].clone());
        assert(string_views(copy@) =~= string_views(before).push(list[i as int]@));
        assert(string_views(list@).take(i + 1) =~= string_views(list@).take(i as int).push(
            list[i as int]@,
        ));
        i += 1;
    }
    assert(string_views(list@).take(i as int) =~= string_views(list@));
    copy
}

/// The memo, the content cache and the regex cache of one index.
pub struct FilterEngine {
    contents: ContentCache,
    memo: Option<FilterMemo>,
    regexes: RegexCache,
}

impl FilterEngine {
    /// The regex cache is in order.
    pub closed spec fn wf(&self) -> bool {
        self.regexes.wf()
    }

    /// The text of each file that the content cache holds.
    pub closed spec fn contents(&self) -> Map<Seq<char>, Seq<char>> {
        self.contents@
    }

    /// The memo, if there is one.
    pub closed spec fn memo(&self) -> Option<MemoView> {
        memo_view(self.memo)
    }

    /// The patterns whose compiled form the regex cache holds.
    pub closed spec fn patterns(&self) -> Set<Seq<char>> {
        self.regexes.patterns()
    }

    /// An engine that remembers nothing.
    pub fn new() -> (engine: FilterEngine)
        ensures
            engine.wf(),
            engine.contents() == Map::<Seq<char>, Seq<char>>::empty(),
            engine.memo() is None,
            engine.patterns() == Set::<Seq<char>>::empty(),
    {
        FilterEngine { contents: ContentCache::new(), memo: None, regexes: RegexCache::new() }
    }

    /// A copy of the memo's list, where the memo is for exactly these queries.
    fn find_memo(&self, glob_query: &str, content_query: &str) -> (found: Option<Vec<String>>)
        ensures
            found is Some <==> memo_hit(self.memo(), glob_query@, content_query@),
            found matches Some(list) ==> string_views(list@) == self.memo()->0.files,
    {
        match &self.memo {
            Some(m) => {
                if m.glob_query == glob_query.to_owned() && m.content_query
                    == content_query.to_owned() {
                    Some(clone_strings(m.files.as_slice()))
                } else {
                    None
                }
            },
            None => None,
        }
    }

    /// The files of `index` that pass the two queries, in the order of the
    /// index. An answer that had to be computed is kept as the memo.
    pub fn filter(&mut self, index: &Vec<String>, glob_query: &str, content_query: &str) -> (result:
        Vec<String>)
        requires
            old(self).wf(),
        ensures
            final(self).wf(),
            string_views(result@) == filtered(
                string_views(index@),
                glob_query@,
                content_query@,
                old(self).memo(),
                old(self).contents(),
            ),
            final(self).memo() == memo_after(
                string_views(index@),
                glob_query@,
                content_query@,
                old(self).memo(),
                old(self).contents(),
            ),
            final(self).contents() == old(self).contents(),
            final(self).patterns() == patterns_after(
                glob_query@,
                content_query@,
                old(self).memo(),
                old(self).patterns(),
            ),
    {
        if blank(&chars_of(glob_query)) && blank(&chars_of(content_query)) {
            return clone_strings(index.as_slice());
        }
        match self.find_memo(glob_query, content_query) {
            Some(list) => {
                return list;
            },
            None => {},
        }
        let globs = GlobFilter::new(glob_query);
        let matcher: Option<Regex> = if content_query.is_empty() {
            None
        } else {
            match self.regexes.compile(content_query) {
                Ok(re) => Some(re),
                Err(_) => None,
            }
        };
        let ghost files = string_views(index@);
        let ghost contents = self.contents@;
        let ghost pred = |path: Seq<char>| passes(glob_query@, content_query@, contents, path);
        let mut result: Vec<String> = Vec::new();
        let mut i: usize = 0;
        proof {
            assert(files.take(0) =~= Seq::<Seq<char>>::empty());
            lemma_filter_empty(pred);
        }
        while i < index.len()
            invariant
                i <= index.len(),
                files == string_views(index@),
                contents == self.contents@,
                pred == |path: Seq<char>| passes(glob_query@, content_query@, contents, path),
                forall|path: Seq<char>| #[trigger]
                    globs.accepts(path) == glob_passes(glob_query@, path),
                content_query@.len() == 0 ==> matcher is None,
                content_query@.len() > 0 ==> (matcher is Some <==> regex_compiles(content_query@)),
                matcher matches Some(re) ==> regex_origin(re) == Some(content_query@),
                string_views(result@) == files.take(i as int).filter(pred),
            decreases index.len() - i,
        {
            let path = &index[i];
            proof {
                assert(path@ == files[i as int]);
                lemma_filter_step(files, i as int, pred);
            }
            let keep = globs.is_match(path.as_str()) && if content_query.is_empty() {
                true
            } else {
                match &matcher {
                    Some(re) => match self.contents.get(path.as_str()) {
                        Some(text) => re.is_match(text.as_str()),
                        None => false,
                    },
                    None => false,
                }
            };
            assert(keep == pred(path@));
            if keep {
                let ghost before = result@;
                result.push(path.clone());
                assert(string_views(result@) =~= string_views(before).push(path@));
            }
            i += 1;
        }
        assert(files.take(i as int) =~= files);
        self.memo = Some(
            FilterMemo {
                glob_query: glob_query.to_owned(),
                content_query: content_query.to_owned(),
                files: clone_strings(result.as_slice()),
            },
        );
        result
    }

    /// The files of `index` that have to be read before `filter` can answer
    /// for them, in the order of the index: none where `filter` would
    /// compute nothing, else each file that the glob query lets pass while
    /// the content query asks for a text that the cache does not hold.
    pub fn unread(&mut self, index: &Vec<String>, glob_query: &str, content_query: &str) -> (result:
        Vec<String>)
        requires
            old(self).wf(),
        ensures
            final(self).wf(),
            string_views(result@) == unread(
                string_views(index@),
                glob_query@,
                content_query@,
                old(self).memo(),
                old(self).contents(),
            ),
            final(self).memo() == old(self).memo(),
            final(self).contents() == old(self).contents(),
            final(self).patterns() == patterns_after(
                glob_query@,
                content_query@,
                old(self).memo(),
                old(self).patterns(),
            ),
    {
        if blank(&chars_of(glob_query)) && blank(&chars_of(content_query)) {
            return Vec::new();
        }
        if self.find_memo(glob_query, content_query).is_some() {
            return Vec::new();
        }
        let ghost files = string_views(index@);
        let ghost contents = self.contents@;
        let ghost pred = |path: Seq<char>|
            lacks_content(glob_query@, content_query@, contents, path);
        let mut result: Vec<String> = Vec::new();
        proof {
            assert(files.take(0) =~= Seq::<Seq<char>>::empty());
            lemma_filter_empty(pred);
        }
        let asked = !content_query.is_empty() && self.regexes.compile(content_query).is_ok();
        let globs = GlobFilter::new(glob_query);
        let mut i: usize = 0;
        while i < index.len()
            invariant
                i <= index.len(),
                files == string_views(index@),
                contents == self.contents@,
                pred == |path: Seq<char>|
                    lacks_content(glob_query@, content_query@, contents, path),
                forall|path: Seq<char>| #[trigger]
                    globs.accepts(path) == glob_passes(glob_query@, path),
                asked == (content_query@.len() > 0 && regex_compiles(content_query@)),
                string_views(result@) == files.take(i as int).filter(pred),
            decreases index.len() - i,
        {
            let path = &index[i];
            proof {
                assert(path@ == files[i as int]);
                lemma_filter_step(files, i as int, pred);
            }
            let lacking = asked && globs.is_match(path.as_str()) && !self.contents.contains(
                path.as_str(),
            );
            assert(lacking == pred(path@));
            if lacking {
                let ghost before = result@;
                result.push(path.clone());
                assert(string_views(result@) =~= string_views(before).push(path@));
            }
            i += 1;
        }
        assert(files.take(i as int) =~= files);
        result
    }

    /// The cached text of `path`, if the cache holds one.
    pub fn content(&self, path: &str) -> (text: Option<&String>)
        ensures
            match text {
                Some(t) => self.contents().contains_key(path@) && self.contents()[path@] == t@,
                None => !self.contents().contains_key(path@),
            },
    {
        self.contents.get(path)
    }

    /// Takes in what reading `path` gave: a text becomes the cached text of
    /// `path`, a failure changes nothing. Either is handed on.
    pub fn supply(&mut self, path: &str, read: Result<String, ReadError>) -> (result: Result<
        String,
        ReadError,
    >)
        requires
            old(self).wf(),
        ensures
            final(self).wf(),
            result == read,
            final(self).contents() == match read {
                Ok(text) => old(self).contents().insert(path@, text@),
                Err(_) => old(self).contents(),
            },
            final(self).memo() == old(self).memo(),
            final(self).patterns() == old(self).patterns(),
    {
        self.contents.fill(path, read)
    }

    /// Forgets what depends on the file at `path`, which has changed or was
    /// written: its cached text, and the memo, since one file's text can
    /// decide whether it passes.
    pub fn invalidate(&mut self, path: &str)
        requires
            old(self).wf(),
        ensures
            final(self).wf(),
            final(self).contents() == old(self).contents().remove(path@),
            final(self).memo() is None,
            final(self).patterns() == old(self).patterns(),
    {
        self.contents.invalidate(path);
        self.memo = None;
    }

    /// Forgets the memo, as when the index is replaced.
    pub fn invalidate_all(&mut self)
        requires
            old(self).wf(),
        ensures
            final(self).wf(),
            final(self).contents() == old(self).contents(),
            final(self).memo() is None,
            final(self).patterns() == old(self).patterns(),
    {
        self.memo = None;
    }
}

/// Asking twice gives the same answer. After the filter has answered for a
/// pair of queries, it answers the same pair with the same list, whatever
/// the content cache holds by then, has no file to be read for it, and
/// leaves the memo as it is, as long as nothing was invalidated in between.
pub proof fn law_memoized_answer(
    files: Seq<Seq<char>>,
    glob_query: Seq<char>,
    content_query: Seq<char>,
    memo: Option<MemoView>,
    contents: Map<Seq<char>, Seq<char>>,
    later_contents: Map<Seq<char>, Seq<char>>,
)
    ensures
        ({
            let first = filtered(files, glob_query, content_query, memo, contents);
            let kept = memo_after(files, glob_query, content_query, memo, contents);
            &&& filtered(files, glob_query, content_query, kept, later_contents) == first
            &&& unread(files, glob_query, content_query, kept, later_contents) == Seq::<
                Seq<char>,
            >::empty()
            &&& memo_after(files, glob_query, content_query, kept, later_contents) == kept
        }),
{
}

/// A file is in the computed answer exactly if it is in the index and
/// passes both queries.
pub proof fn lemma_computed_contains(
    files: Seq<Seq<char>>,
    glob_query: Seq<char>,
    content_query: Seq<char>,
    contents: Map<Seq<char>, Seq<char>>,
    path: Seq<char>,
)
    ensures
        computed(files, glob_query, content_query, contents).contains(path) <==> files.contains(
            path,
        ) && passes(glob_query, content_query, contents, path),
{
    let pred = |p: Seq<char>| passes(glob_query, content_query, contents, p);
    lemma_filter_members(files, pred, path);
}

/// After a file was invalidated, the filter goes by what the file holds
/// now. With the memo gone and the file's text out of the cache, as
/// `invalidate` leaves them, a filter whose queries ask anything computes
/// anew; it has the file read where its text decides; and once the text
/// that was read, `fresh`, is supplied, the file is in the answer exactly
/// if it passes the glob query and `fresh` passes the content query. What
/// the cache held for the file before plays no part.
pub proof fn law_invalidated_file_is_read_anew(
    files: Seq<Seq<char>>,
    glob_query: Seq<char>,
    content_query: Seq<char>,
    contents: Map<Seq<char>, Seq<char>>,
    path: Seq<char>,
    fresh: Seq<char>,
)
    requires
        files.contains(path),
        !asks_nothing(glob_query, content_query),
    ensures
        ({
            let invalidated = contents.remove(path);
            let supplied = invalidated.insert(path, fresh);
            &&& lacks_content(glob_query, content_query, invalidated, path) ==> unread(
                files,
                glob_query,
                content_query,
                None,
                invalidated,
            ).contains(path)
            &&& filtered(files, glob_query, content_query, None, supplied).contains(path) == (
            glob_passes(glob_query, path) && (content_query.len() == 0 || (regex_compiles(
                content_query,
            ) && regex_is_match(content_query, fresh))))
        }),
{
    let invalidated = contents.remove(path);
    let supplied = invalidated.insert(path, fresh);
    lemma_computed_contains(files, glob_query, content_query, supplied, path);
    let lacking = |p: Seq<char>| lacks_content(glob_query, content_query, invalidated, p);
    lemma_filter_members(files, lacking, path);
}

/// The computed answer keeps the order of the index and adds nothing: it is
/// the index with the files that do not pass left out.
pub proof fn law_answer_is_part_of_index(
    files: Seq<Seq<char>>,
    glob_query: Seq<char>,
    content_query: Seq<char>,
    contents: Map<Seq<char>, Seq<char>>,
)
    ensures
        computed(files, glob_query, content_query, contents).len() <= files.len(),
        forall|path: Seq<char>|
            computed(files, glob_query, content_query, contents).contains(path)
                ==> files.contains(path),
{
    let pred = |p: Seq<char>| passes(glob_query, content_query, contents, p);
    files.lemma_filter_len(pred);
    assert forall|path: Seq<char>|
        computed(files, glob_query, content_query, contents).contains(path) implies files.contains(
        path,
    ) by {
        lemma_computed_contains(files, glob_query, content_query, contents, path);
    }
}

} // verus!
