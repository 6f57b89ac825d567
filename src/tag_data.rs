use vstd::prelude::*;

verus! {

/// Cumulative question and word counts of one tag, in one site or overall.
#[derive(Clone, Copy, Debug, PartialEq, Eq, Structural)]
pub struct TagData {
    pub questions: usize,
    pub words: usize,
}

/// `a + b`, capped at the largest `usize`.
pub open spec fn sat_add(a: usize, b: usize) -> usize {
    if a + b > usize::MAX {
        usize::MAX
    } else {
        (a + b) as usize
    }
}

/// `d` with `q` more questions and `w` more words (each capped).
pub open spec fn bumped(d: TagData, q: usize, w: usize) -> TagData {
    TagData { questions: sat_add(d.questions, q), words: sat_add(d.words, w) }
}

/// Whether key `k` occurs in the table model `s`.
pub open spec fn has_key<V>(s: Seq<(Seq<char>, V)>, k: Seq<char>) -> bool {
    exists|i: int| 0 <= i < s.len() && s[i].0 == k
}

/// The position of key `k` in `s` (meaningful when `has_key(s, k)`).
pub open spec fn key_index<V>(s: Seq<(Seq<char>, V)>, k: Seq<char>) -> int {
    choose|i: int| 0 <= i < s.len() && s[i].0 == k
}

/// No key occurs twice in `s`.
pub open spec fn unique_keys<V>(s: Seq<(Seq<char>, V)>) -> bool {
    forall|i: int, j: int| 0 <= i < j < s.len() ==> s[i].0 != s[j].0
}

/// The table `s` after adding `q` questions and `w` words to tag `k`:
/// the existing entry is bumped in place, or a new entry goes at the end.
pub open spec fn tally_add(s: Seq<(Seq<char>, TagData)>, k: Seq<char>, q: usize, w: usize) -> Seq<
    (Seq<char>, TagData),
> {
    if has_key(s, k) {
        let i = key_index(s, k);
        s.update(i, (k, bumped(s[i].1, q, w)))
    } else {
        s.push((k, TagData { questions: q, words: w }))
    }
}

/// The model of a list of named entries: each name as its characters.
pub open spec fn named_view<V>(e: Seq<(String, V)>) -> Seq<(Seq<char>, V)> {
    e.map_values(|p: (String, V)| (p.0@, p.1))
}

/// A mapping from tag name to its counts, kept in order of first insertion.
#[derive(Clone, Debug)]
pub struct TagTable {
    pub entries: Vec<(String, TagData)>,
}

impl View for TagTable {
    type V = Seq<(Seq<char>, TagData)>;

    open spec fn view(&self) -> Seq<(Seq<char>, TagData)> {
        named_view(self.entries@)
    }
}

/// Keys are unique and every tag has been seen in at least one question.
pub open spec fn tally_wf(s: Seq<(Seq<char>, TagData)>) -> bool {
    unique_keys(s) && forall|i: int| 0 <= i < s.len() ==> s[i].1.questions > 0
}

/// Position of `key` among `entries`, if present.
pub fn find_key<V>(entries: &Vec<(String, V)>, key: &String) -> (r: Option<usize>)
    ensures
        match r {
            Some(i) => i < entries@.len() && named_view(entries@)[i as int].0 == key@,
            None => !has_key(named_view(entries@), key@),
        },
{
    let n = entries.len();
    let mut i: usize = 0;
    while i < n
        invariant
            n == entries@.len(),
            i <= n,
            forall|j: int| 0 <= j < i ==> named_view(entries@)[j].0 != key@,
        decreases n - i,
    {
        if entries[i].0 == *key {
            return Some(i);
        }
        i += 1;
    }
    None
}

impl TagTable {
    pub open spec fn wf(&self) -> bool {
        tally_wf(self@)
    }

    /// An empty table.
    pub fn new() -> (r: TagTable)
        ensures
            r@ == Seq::<(Seq<char>, TagData)>::empty(),
            r.wf(),
    {
        TagTable { entries: Vec::new() }
    }

    /// Number of tags in the table.
    pub fn len(&self) -> (r: usize)
        ensures
            r == self@.len(),
    {
        self.entries.len()
    }

    /// The counts of `key`, if it is in the table.
    pub fn get(&self, key: &String) -> (r: Option<TagData>)
        requires
            self.wf(),
        ensures
            r == (if has_key(self@, key@) {
                Some(self@[key_index(self@, key@)].1)
            } else {
                None::<TagData>
            }),
    {
        match find_key(&self.entries, key) {
            Some(i) => {
                proof {
                    let k = key_index(self@, key@);
                    assert(self@[i as int].0 == key@);
                }
                Some(self.entries[i].1)
            },
            None => None,
        }
    }

    /// Adds `q` questions and `w` words to `key`, creating its entry if absent.
    pub fn add(&mut self, key: &String, q: usize, w: usize)
        requires
            old(self).wf(),
            q > 0,
        ensures
            final(self)@ == tally_add(old(self)@, key@, q, w),
            final(self).wf(),
    {
        let ghost s = self@;
        match find_key(&self.entries, key) {
            Some(i) => {
                let d = self.entries[i].1;
                let nd = TagData { questions: d.questions.saturating_add(q), words: d.words.saturating_add(w) };
                self.entries.set(i, (key.clone(), nd));
                proof {
                    assert(key_index(s, key@) == i as int);
                    assert(self@ =~= s.update(i as int, (key@, bumped(s[i as int].1, q, w))));
                }
            },
            None => {
                self.entries.push((key.clone(), TagData { questions: q, words: w }));
                proof {
                    assert(self@ =~= s.push((key@, TagData { questions: q, words: w })));
                }
            },
        }
    }
}

} // verus!
