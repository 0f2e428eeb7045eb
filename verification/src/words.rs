//! The word table that turns the six bytes of an address into a code of
//! six words and back: one word for each byte value.
use vstd::prelude::*;

verus! {

/// The number of words in a table: one for each value of a byte.
pub const WORD_COUNT: usize = 256;

/// A table of exactly 256 words; the word at index `b` stands for the
/// byte `b`.
pub struct WordList {
    words: Vec<String>,
}

/// The first index at or after `i` at which `ws` holds `w`.
pub open spec fn position_from(ws: Seq<Seq<char>>, w: Seq<char>, i: int) -> Option<int>
    decreases ws.len() - i,
{
    if i < 0 || i >= ws.len() {
        None
    } else if ws[i] == w {
        Some(i)
    } else {
        position_from(ws, w, i + 1)
    }
}

/// The first index at which `ws` holds `w`, as `iter().position(..)`
/// finds it.
pub open spec fn position(ws: Seq<Seq<char>>, w: Seq<char>) -> Option<int> {
    position_from(ws, w, 0)
}

/// The search from `i` finds the first match at or after `i`.
pub proof fn lemma_position_from(ws: Seq<Seq<char>>, w: Seq<char>, i: int, k: int)
    requires
        0 <= i <= k < ws.len(),
        ws[k] == w,
        forall|j: int| i <= j < k ==> ws[j] != w,
    ensures
        position_from(ws, w, i) == Some(k),
    decreases k - i,
{
    if i < k {
        lemma_position_from(ws, w, i + 1, k);
    }
}

/// What the search finds is a match, at or after where it started.
pub proof fn lemma_position_found(ws: Seq<Seq<char>>, w: Seq<char>, i: int)
    ensures
        position_from(ws, w, i) matches Some(k) ==> i <= k < ws.len() && ws[k] == w,
    decreases ws.len() - i,
{
    if 0 <= i < ws.len() && ws[i] != w {
        lemma_position_found(ws, w, i + 1);
    }
}

/// The table holds `w` somewhere.
pub open spec fn in_table(ws: Seq<Seq<char>>, w: Seq<char>) -> bool {
    exists|i: int| 0 <= i < ws.len() && ws[i] == w
}

/// The search from `i` finds the first match at or after `i`, and finds
/// nothing only when there is no match from `i` on.
pub proof fn lemma_position_first(ws: Seq<Seq<char>>, w: Seq<char>, i: int)
    requires
        0 <= i,
    ensures
        position_from(ws, w, i) matches Some(k) ==> i <= k < ws.len() && ws[k] == w && forall|
            j: int,
        | i <= j < k ==> ws[j] != w,
        position_from(ws, w, i) is None ==> forall|j: int| i <= j < ws.len() ==> ws[j] != w,
    decreases ws.len() - i,
{
    if i < ws.len() && ws[i] != w {
        lemma_position_first(ws, w, i + 1);
    }
}

/// A word is found exactly when the table holds it, and then at its first
/// index.
pub proof fn lemma_position_in_table(ws: Seq<Seq<char>>, w: Seq<char>)
    ensures
        position(ws, w) is Some <==> in_table(ws, w),
        position(ws, w) matches Some(k) ==> 0 <= k < ws.len() && ws[k] == w && forall|j: int|
            0 <= j < k ==> ws[j] != w,
{
    lemma_position_first(ws, w, 0);
    if in_table(ws, w) {
        let i = choose|i: int| 0 <= i < ws.len() && ws[i] == w;
        assert(ws[i] == w);
    }
}

/// A search past the end finds nothing; a search from `i` that passes no
/// match finds what the search from further on finds.
pub proof fn lemma_position_absent(ws: Seq<Seq<char>>, w: Seq<char>, i: int)
    requires
        0 <= i <= ws.len(),
        forall|j: int| i <= j < ws.len() ==> ws[j] != w,
    ensures
        position_from(ws, w, i) is None,
    decreases ws.len() - i,
{
    if i < ws.len() {
        lemma_position_absent(ws, w, i + 1);
    }
}

impl View for WordList {
    type V = Seq<Seq<char>>;

    /// The words, in table order; there are always 256 of them.
    closed spec fn view(&self) -> Seq<Seq<char>> {
        Seq::new(WORD_COUNT as nat, |i: int| self.words@[i]@)
    }
}

impl WordList {
    #[verifier::type_invariant]
    spec fn inv(self) -> bool {
        self.words@.len() == WORD_COUNT
    }

    /// Every table has 256 words.
    pub proof fn lemma_view_len(&self)
        ensures
            self.view().len() == WORD_COUNT,
    {
    }

    /// No word occurs twice in the table.
    pub open spec fn distinct(&self) -> bool {
        forall|i: int, j: int|
            0 <= i < j < self.view().len() ==> self.view()[i] != self.view()[j]
    }

    /// A table from `words`; `None` unless there are exactly 256 of them.
    pub fn new(words: Vec<String>) -> (res: Option<WordList>)
        ensures
            res is Some <==> words@.len() == WORD_COUNT,
            res matches Some(t) ==> t.view() == words@.map_values(|w: String| w@),
    {
        if words.len() == WORD_COUNT {
            let t = WordList { words };
            assert(t.view() =~= t.words@.map_values(|w: String| w@));
            Some(t)
        } else {
            None
        }
    }

    /// The word that stands for byte `b`.
    pub fn word(&self, b: u8) -> (w: &String)
        ensures
            w@ == self.view()[b as int],
    {
        proof {
            use_type_invariant(self);
        }
        &self.words[b as usize]
    }

    /// The first index at which the table holds `w`.
    pub fn position(&self, w: &String) -> (res: Option<usize>)
        ensures
            res matches Some(i) ==> position(self.view(), w@) == Some(i as int),
            res is None ==> position(self.view(), w@) is None,
            res matches Some(i) ==> i < WORD_COUNT,
    {
        proof {
            use_type_invariant(self);
        }
        let ghost ws = self.view();
        let mut i: usize = 0;
        while i < self.words.len()
            invariant
                ws == self.view(),
                self.words@.len() == WORD_COUNT,
                i <= WORD_COUNT,
                forall|j: int| 0 <= j < i ==> ws[j] != w@,
            decreases WORD_COUNT - i,
        {
            if self.words[i] == *w {
                proof {
                    lemma_position_from(ws, w@, 0, i as int);
                }
                return Some(i);
            }
            i = i + 1;
        }
        proof {
            lemma_position_absent(ws, w@, 0);
        }
        None
    }
}

} // verus!
