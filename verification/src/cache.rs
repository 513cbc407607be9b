//! The content cache: the text of each file as it was last read.

use vstd::prelude::*;

verus! {

/// Why a file's text could not be had.
#[derive(Clone, Copy, Debug, PartialEq, Eq, Structural)]
pub enum ReadError {
    NotFound,
    PermissionDenied,
    InvalidEncoding,
    Other,
}

/// The map that a list of entries stands for: each path with the content of
/// the last entry that names it.
pub open spec fn map_of(entries: Seq<(Seq<char>, Seq<char>)>) -> Map<Seq<char>, Seq<char>>
    decreases entries.len(),
{
    if entries.len() == 0 {
        Map::empty()
    } else {
        map_of(entries.drop_last()).insert(entries.last().0, entries.last().1)
    }
}

/// The views of the entries of `entries`, one for one.
pub open spec fn entry_views(entries: Seq<(String, String)>) -> Seq<(Seq<char>, Seq<char>)> {
    entries.map_values(|e: (String, String)| (e.0@, e.1@))
}

/// The text of files by path. An entry holds what the file held when it was
/// last read; a path without an entry is a file whose text is not known.
pub struct ContentCache {
    entries: Vec<(String, String)>,
}

impl View for ContentCache {
    type V = Map<Seq<char>, Seq<char>>;

    closed spec fn view(&self) -> Map<Seq<char>, Seq<char>> {
        map_of(entry_views(self.entries@))
    }
}

impl ContentCache {
    /// A cache without entries.
    pub fn new() -> (cache: ContentCache)
        ensures
            cache@ == Map::<Seq<char>, Seq<char>>::empty(),
    {
        ContentCache { entries: Vec::new() }
    }

    /// The cached text of `path`, if the cache holds one.
    pub fn get(&self, path: &str) -> (content: Option<&String>)
        ensures
            match content {
                Some(text) => self@.contains_key(path@) && self@[path@] == text@,
                None => !self@.contains_key(path@),
            },
    {
        let key = path.to_owned();
        let ghost all = entry_views(self.entries@);
        let mut i: usize = self.entries.len();
        assert(all.take(i as int) =~= all);
        while i > 0
            invariant
                i <= self.entries.len(),
                all == entry_views(self.entries@),
                key@ == path@,
                map_of(all).contains_key(path@) == map_of(all.take(i as int)).contains_key(path@),
                map_of(all).contains_key(path@) ==> map_of(all)[path@] == map_of(
                    all.take(i as int),
                )[path@],
            decreases i,
        {
            i -= 1;
            assert(all.take(i + 1).drop_last() =~= all.take(i as int));
            assert(all.take(i + 1).last() == all[i as int]);
            if self.entries[i].0 == key {
                return Some(&self.entries[i].1);
            }
        }
        assert(all.take(0) =~= Seq::<(Seq<char>, Seq<char>)>::empty());
        None
    }

    /// Whether the cache holds the text of `path`.
    pub fn contains(&self, path: &str) -> (held: bool)
        ensures
            held == self@.contains_key(path@),
    {
        self.get(path).is_some()
    }

    /// Removes the entry of `path`, if there is one.
    pub fn invalidate(&mut self, path: &str)
        ensures
            final(self)@ == old(self)@.remove(path@),
    {
        let key = path.to_owned();
        let ghost all = entry_views(self.entries@);
        let mut kept: Vec<(String, String)> = Vec::new();
        let mut rest: Vec<(String, String)> = Vec::new();
        std::mem::swap(&mut rest, &mut self.entries);
        let mut i: usize = 0;
        assert(all.take(0) =~= Seq::<(Seq<char>, Seq<char>)>::empty());
        assert(map_of(entry_views(kept@)) =~= map_of(all.take(0)).remove(path@));
        while i < rest.len()
            invariant
                i <= rest.len(),
                all == entry_views(rest@),
                key@ == path@,
                map_of(entry_views(kept@)) == map_of(all.take(i as int)).remove(path@),
            decreases rest.len() - i,
        {
            assert(all.take(i + 1).drop_last() =~= all.take(i as int));
            assert(all.take(i + 1).last() == all[i as int]);
            if rest[i].0 != key {
                let entry = (rest[i].0.clone(), rest[i].1.clone());
                let ghost before = kept@;
                kept.push(entry);
                assert(entry_views(kept@).drop_last() =~= entry_views(before));
                assert(entry_views(kept@).last() == all[i as int]);
                assert(map_of(entry_views(kept@)) =~= map_of(all.take(i + 1)).remove(path@));
            } else {
                assert(map_of(entry_views(kept@)) =~= map_of(all.take(i + 1)).remove(path@));
            }
            i += 1;
        }
        assert(all.take(i as int) =~= all);
        self.entries = kept;
    }

    /// Removes every entry.
    pub fn invalidate_all(&mut self)
        ensures
            final(self)@ == Map::<Seq<char>, Seq<char>>::empty(),
    {
        self.entries = Vec::new();
    }

    /// Makes `content` the cached text of `path`.
    pub fn insert(&mut self, path: String, content: String)
        ensures
            final(self)@ == old(self)@.insert(path@, content@),
    {
        self.invalidate(path.as_str());
        let ghost before = self.entries@;
        self.entries.push((path, content));
        assert(entry_views(self.entries@).drop_last() =~= entry_views(before));
        assert(map_of(entry_views(before)).insert(path@, content@) =~= old(self)@.insert(
            path@,
            content@,
        ));
    }

    /// Takes in what reading `path` gave after a miss: a text that was read
    /// becomes the entry of `path`, a failure leaves the cache as it is.
    /// Either is handed on to the caller.
    pub fn fill(&mut self, path: &str, read: Result<String, ReadError>) -> (result: Result<
        String,
        ReadError,
    >)
        ensures
            result == read,
            match read {
                Ok(content) => final(self)@ == old(self)@.insert(path@, content@),
                Err(_) => final(self)@ == old(self)@,
            },
    {
        match read {
            Ok(content) => {
                self.insert(path.to_owned(), content.clone());
                Ok(content)
            },
            Err(e) => Err(e),
        }
    }
}

} // verus!
