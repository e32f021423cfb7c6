//! Word lists: their categories, their file format and the cache that holds
//! them once they are read.

use vstd::prelude::*;
use rand::rngs::StdRng;
use std::path::PathBuf;
use crate::dice::random_index;
use crate::text::chars_of;

verus! {

/// The categories of word that a template can ask for.
#[derive(Debug, Clone, Copy, PartialEq, Eq, Structural)]
pub enum Category {
    Noun,
    Adjective,
    Color,
}

impl Category {
    /// The name of the category, which is also the name of its file.
    pub open spec fn name_text(self) -> Seq<char> {
        match self {
            Category::Noun => "noun"@,
            Category::Adjective => "adjective"@,
            Category::Color => "color"@,
        }
    }

    /// The name of the category: the file that holds its words bears this
    /// name, without an extension, in the directory of the corpus.
    pub fn name(self) -> (name: &'static str)
        ensures
            name@ == self.name_text(),
    {
        match self {
            Category::Noun => "noun",
            Category::Adjective => "adjective",
            Category::Color => "color",
        }
    }
}

/// The index of the first line feed at or after `from`; `t.len()` if there
/// is none.
pub open spec fn line_end(t: Seq<char>, from: int) -> int
    decreases t.len() - from,
{
    if 0 <= from < t.len() && t[from] != '\n' {
        line_end(t, from + 1)
    } else {
        from
    }
}

/// The line that starts at `from`, without its terminator. A line feed ends
/// a line; a carriage return directly before that line feed belongs to the
/// terminator. The last line may lack a terminator and then keeps a
/// carriage return at its end.
pub open spec fn line_at(t: Seq<char>, from: int) -> Seq<char> {
    let end = line_end(t, from);
    if from < end < t.len() && t[end - 1] == '\r' {
        t.subrange(from, end - 1)
    } else {
        t.subrange(from, end)
    }
}

/// The entries of the text from index `from` on: its lines in order, the
/// empty ones left out.
pub open spec fn entries_from(t: Seq<char>, from: int) -> Seq<Seq<char>>
    decreases t.len() - from,
{
    if from < 0 || from >= t.len() {
        Seq::empty()
    } else {
        proof {
            lemma_line_end(t, from);
        }
        let end = line_end(t, from);
        let rest = if end < t.len() {
            entries_from(t, end + 1)
        } else {
            Seq::empty()
        };
        if line_at(t, from).len() > 0 {
            seq![line_at(t, from)] + rest
        } else {
            rest
        }
    }
}

/// The entries of a word-list file with the given contents.
pub open spec fn entries_of(t: Seq<char>) -> Seq<Seq<char>> {
    entries_from(t, 0)
}

/// The words of a list, each as its sequence of characters.
pub open spec fn words(list: Seq<String>) -> Seq<Seq<char>> {
    Seq::new(list.len(), |i: int| list[i]@)
}

/// A line ends at or after its start and within the text, and holds no line
/// feed.
pub proof fn lemma_line_end(t: Seq<char>, from: int)
    requires
        0 <= from <= t.len(),
    ensures
        from <= line_end(t, from) <= t.len(),
        forall|i: int| from <= i < line_end(t, from) ==> #[trigger] t[i] != '\n',
        line_end(t, from) < t.len() ==> t[line_end(t, from)] == '\n',
    decreases t.len() - from,
{
    if from < t.len() && t[from] != '\n' {
        lemma_line_end(t, from + 1);
    }
}

/// Every entry of a text holds at least one character and no line feed.
pub proof fn lemma_entries_are_lines(t: Seq<char>, from: int)
    requires
        0 <= from,
    ensures
        forall|k: int|
            0 <= k < entries_from(t, from).len() ==> {
                &&& (#[trigger] entries_from(t, from)[k]).len() > 0
                &&& !entries_from(t, from)[k].contains('\n')
            },
    decreases t.len() - from,
{
    if from < t.len() {
        lemma_line_end(t, from);
        let end = line_end(t, from);
        if end < t.len() {
            lemma_entries_are_lines(t, end + 1);
        }
        let rest = if end < t.len() {
            entries_from(t, end + 1)
        } else {
            Seq::empty()
        };
        assert forall|k: int| 0 <= k < entries_from(t, from).len() implies {
            &&& (#[trigger] entries_from(t, from)[k]).len() > 0
            &&& !entries_from(t, from)[k].contains('\n')
        } by {
            if line_at(t, from).len() > 0 && k == 0 {
                assert(entries_from(t, from)[0] == line_at(t, from));
            } else if line_at(t, from).len() > 0 {
                assert(entries_from(t, from)[k] == rest[k - 1]);
            } else {
                assert(entries_from(t, from)[k] == rest[k]);
            }
        }
    }
}

/// Splits the contents of a word-list file into its entries: one per line,
/// in the order of the file, blank lines skipped.
pub fn read_entries(text: &str) -> (entries: Vec<String>)
    ensures
        words(entries@) == entries_of(text@),
{
    let chars = chars_of(text);
    let ghost t = chars@;
    let mut entries: Vec<String> = Vec::new();
    let mut from: usize = 0;
    while from < chars.len()
        invariant
            chars@ == t,
            from <= t.len(),
            words(entries@) + entries_from(t, from as int) == entries_from(t, 0),
        decreases t.len() - from,
    {
        let mut end: usize = from;
        while end < chars.len() && chars[end] != '\n'
            invariant
                chars@ == t,
                from <= end <= t.len(),
                line_end(t, end as int) == line_end(t, from as int),
            decreases t.len() - end,
        {
            end = end + 1;
        }
        assert(end == line_end(t, from as int));
        let stop: usize = if end < chars.len() && from < end && chars[end - 1] == '\r' {
            end - 1
        } else {
            end
        };
        let mut line = String::new();
        let mut i: usize = from;
        while i < stop
            invariant
                chars@ == t,
                from <= i <= stop <= t.len(),
                line@ == t.subrange(from as int, i as int),
            decreases stop - i,
        {
            line.push(chars[i]);
            i = i + 1;
        }
        assert(line@ == line_at(t, from as int));
        let ghost before = entries@;
        if from < stop {
            entries.push(line);
            assert(words(entries@) == words(before) + seq![line_at(t, from as int)]);
        }
        let next: usize = if end < chars.len() {
            end + 1
        } else {
            end
        };
        assert(words(entries@) + entries_from(t, next as int) == words(before) + entries_from(
            t,
            from as int,
        ));
        from = next;
    }
    assert(words(entries@) + Seq::<Seq<char>>::empty() == words(entries@));
    entries
}

/// Draws one entry of a list that is not empty. Each call is a draw of its
/// own over the whole list.
pub fn random_entry<'a>(rng: &mut StdRng, list: &'a Vec<String>) -> (entry: &'a str)
    requires
        list.len() > 0,
    ensures
        exists|k: int| 0 <= k < list.len() && entry@ == (#[trigger] list@[k])@,
{
    let index = random_index(rng, list.len());
    list[index].as_str()
}

/// The word lists read so far, by category, and the directory they come
/// from. A list enters once and is then neither replaced nor dropped. No
/// list in the cache is empty.
pub struct Corpus {
    directory: PathBuf,
    noun: Option<Vec<String>>,
    adjective: Option<Vec<String>>,
    color: Option<Vec<String>>,
}

impl Corpus {
    #[verifier::type_invariant]
    spec fn stocked(&self) -> bool {
        &&& self.noun matches Some(list) ==> list.len() > 0
        &&& self.adjective matches Some(list) ==> list.len() > 0
        &&& self.color matches Some(list) ==> list.len() > 0
    }

    spec fn slot(&self, category: Category) -> Option<Vec<String>> {
        match category {
            Category::Noun => self.noun,
            Category::Adjective => self.adjective,
            Category::Color => self.color,
        }
    }

    /// The words of a category, in the order of its file; `None` until the
    /// list is loaded.
    pub closed spec fn list(&self, category: Category) -> Option<Seq<Seq<char>>> {
        match self.slot(category) {
            Some(list) => Some(words(list@)),
            None => None,
        }
    }

    /// The directory given at construction.
    pub closed spec fn home(&self) -> PathBuf {
        self.directory
    }

    /// An empty cache for the lists in `directory`.
    pub fn new(directory: PathBuf) -> (corpus: Corpus)
        ensures
            corpus.home() == directory,
            forall|category: Category| corpus.list(category) is None,
    {
        Corpus { directory, noun: None, adjective: None, color: None }
    }

    /// The directory that holds one file per category.
    pub fn directory(&self) -> (directory: &PathBuf)
        ensures
            *directory == self.home(),
    {
        &self.directory
    }

    fn cached(&self, category: Category) -> (list: &Option<Vec<String>>)
        ensures
            *list == self.slot(category),
            *list matches Some(l) ==> l.len() > 0,
    {
        proof {
            use_type_invariant(self);
        }
        match category {
            Category::Noun => &self.noun,
            Category::Adjective => &self.adjective,
            Category::Color => &self.color,
        }
    }

    /// Whether the list of a category is in the cache. A list that is holds
    /// at least one word.
    pub fn is_loaded(&self, category: Category) -> (loaded: bool)
        ensures
            loaded == (self.list(category) is Some),
            self.list(category) matches Some(list) ==> list.len() > 0,
    {
        self.cached(category).is_some()
    }

    /// Puts the entries of a category into the cache. Where the category is
    /// already there, the cache keeps what it has.
    pub fn load(&mut self, category: Category, entries: Vec<String>)
        requires
            entries.len() > 0,
        ensures
            final(self).home() == old(self).home(),
            final(self).list(category) == if old(self).list(category) is Some {
                old(self).list(category)
            } else {
                Some(words(entries@))
            },
            forall|other: Category| other != category ==> final(self).list(other) == old(self).list(other),
    {
        proof {
            use_type_invariant(&*self);
        }
        match category {
            Category::Noun => {
                if self.noun.is_none() {
                    self.noun = Some(entries);
                }
            },
            Category::Adjective => {
                if self.adjective.is_none() {
                    self.adjective = Some(entries);
                }
            },
            Category::Color => {
                if self.color.is_none() {
                    self.color = Some(entries);
                }
            },
        }
    }

    /// The word at `index` in the list of a category; `None` where the list
    /// is not loaded or has no such index.
    pub fn entry(&self, category: Category, index: usize) -> (word: Option<&str>)
        ensures
            match self.list(category) {
                Some(list) if index < list.len() => word matches Some(w) && w@ == list[index as int],
                _ => word is None,
            },
    {
        match self.cached(category) {
            Some(list) => {
                if index < list.len() {
                    Some(list[index].as_str())
                } else {
                    None
                }
            },
            None => None,
        }
    }

    /// Draws one word of a category; `None` where its list is not loaded
    /// yet. Each call is a draw of its own over the whole list.
    pub fn get(&self, category: Category, rng: &mut StdRng) -> (word: Option<&str>)
        ensures
            match self.list(category) {
                Some(list) => word matches Some(w) && list.contains(w@),
                None => word is None,
            },
    {
        match self.cached(category) {
            Some(list) => {
                let entry = random_entry(rng, list);
                let ghost k = choose|k: int| 0 <= k < list.len() && entry@ == (#[trigger] list@[k])@;
                assert(words(list@)[k] == entry@);
                Some(entry)
            },
            None => None,
        }
    }
}

} // verus!
