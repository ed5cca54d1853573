//! The search engine: the captured needle, its numeric-or-name
//! classification, and the row predicate. A needle that parses as an `i32`
//! asks for an exact match on the Number column; any other needle matches a
//! row when one of the People or Signature fields contains every
//! whitespace-separated token of the needle, case-insensitively and in any
//! order.

use vstd::prelude::*;
use crate::column::Column;
use crate::store::RecordStore;
use crate::store::RowHandle;
use crate::text::is_space;
use crate::text::char_is_space;
use crate::text::chars_of;
use crate::text::is_i32_numeral;
use crate::text::lower_of;
use crate::text::lowercase;
use crate::text::parse_i32;
use crate::text::str_eq;

verus! {

/// Whether `nee` occurs in `hay` starting at position `k`.
pub open spec fn substring_at(hay: Seq<char>, nee: Seq<char>, k: int) -> bool {
    &&& 0 <= k
    &&& k + nee.len() <= hay.len()
    &&& hay.subrange(k, k + nee.len()) == nee
}

/// Whether `nee` occurs somewhere in `hay`.
pub open spec fn contains_substring(hay: Seq<char>, nee: Seq<char>) -> bool {
    exists|k: int| substring_at(hay, nee, k)
}

/// Whether positions `i..j` of `s` hold a maximal run of non-space
/// characters: a whitespace-separated token.
pub open spec fn token_at(s: Seq<char>, i: int, j: int) -> bool {
    &&& 0 <= i < j <= s.len()
    &&& (forall|t: int| i <= t < j ==> !is_space(s[t]))
    &&& (i == 0 || is_space(s[i - 1]))
    &&& (j == s.len() || is_space(s[j]))
}

/// Whether every whitespace-separated token of `nee` occurs in `hay`.
/// A needle without tokens (empty or all whitespace) is contained in
/// everything.
pub open spec fn all_tokens_contained(nee: Seq<char>, hay: Seq<char>) -> bool {
    forall|i: int, j: int| #[trigger]
        token_at(nee, i, j) ==> contains_substring(hay, nee.subrange(i, j))
}

/// Checks whether `nee` occurs in `hay` at position `k`.
fn match_at(hay: &Vec<char>, nee: &Vec<char>, k: usize) -> (r: bool)
    requires
        k + nee@.len() <= hay@.len(),
    ensures
        r == substring_at(hay@, nee@, k as int),
{
    let hn = hay.len();
    let nn = nee.len();
    let mut j: usize = 0;
    while j < nn
        invariant
            j <= nn,
            nn == nee@.len(),
            hn == hay@.len(),
            k + nn <= hn,
            forall|t: int| 0 <= t < j ==> hay@[k + t] == nee@[t],
        decreases nn - j,
    {
        if hay[k + j] != nee[j] {
            proof {
                assert(hay@.subrange(k as int, k + nn)[j as int] == hay@[k + j]);
            }
            return false;
        }
        j = j + 1;
    }
    proof {
        assert(hay@.subrange(k as int, k + nn) =~= nee@);
    }
    true
}

/// Checks whether `nee` occurs anywhere in `hay`.
pub fn contains_chars(hay: &Vec<char>, nee: &Vec<char>) -> (r: bool)
    ensures
        r == contains_substring(hay@, nee@),
{
    let hn = hay.len();
    let nn = nee.len();
    if nn > hn {
        return false;
    }
    if nn == 0 {
        proof {
            assert(hay@.subrange(0, 0) =~= nee@);
            assert(substring_at(hay@, nee@, 0));
        }
        return true;
    }
    let mut k: usize = 0;
    while k <= hn - nn
        invariant
            1 <= nn <= hn,
            hn == hay@.len(),
            nn == nee@.len(),
            k <= hn - nn + 1,
            forall|k2: int| 0 <= k2 < k ==> !substring_at(hay@, nee@, k2),
        decreases hn - nn + 1 - k,
    {
        if match_at(hay, nee, k) {
            proof {
                assert(substring_at(hay@, nee@, k as int));
            }
            return true;
        }
        k = k + 1;
    }
    false
}

/// Checks whether every whitespace-separated token of `nee` occurs in
/// `hay`.
pub fn tokens_contained(nee: &Vec<char>, hay: &Vec<char>) -> (r: bool)
    ensures
        r == all_tokens_contained(nee@, hay@),
{
    let n = nee.len();
    let mut i: usize = 0;
    while i < n
        invariant
            i <= n,
            n == nee@.len(),
            i == n || i == 0 || is_space(nee@[i - 1]) || is_space(nee@[i as int]),
            forall|a: int, b: int|
                #[trigger] token_at(nee@, a, b) && b <= i ==> contains_substring(
                    hay@,
                    nee@.subrange(a, b),
                ),
        decreases n - i,
    {
        if char_is_space(nee[i]) {
            i = i + 1;
        } else {
            let mut j: usize = i + 1;
            while j < n
                invariant_except_break
                    i < j <= n,
                    n == nee@.len(),
                    forall|t: int| i <= t < j ==> !is_space(nee@[t]),
                ensures
                    i < j <= n,
                    j == n || is_space(nee@[j as int]),
                    forall|t: int| i <= t < j ==> !is_space(nee@[t]),
                decreases n - j,
            {
                if char_is_space(nee[j]) {
                    break;
                }
                j = j + 1;
            }
            let mut tok: Vec<char> = Vec::new();
            let mut t = i;
            while t < j
                invariant
                    i <= t <= j <= n,
                    n == nee@.len(),
                    tok@ == nee@.subrange(i as int, t as int),
                decreases j - t,
            {
                tok.push(nee[t]);
                proof {
                    assert(nee@.subrange(i as int, t + 1) =~= nee@.subrange(
                        i as int,
                        t as int,
                    ).push(nee@[t as int]));
                }
                t = t + 1;
            }
            proof {
                assert(token_at(nee@, i as int, j as int));
            }
            if !contains_chars(hay, &tok) {
                proof {
                    assert(!contains_substring(hay@, nee@.subrange(i as int, j as int)));
                }
                return false;
            }
            proof {
                assert forall|a: int, b: int|
                    #[trigger] token_at(nee@, a, b) && b <= j as int implies contains_substring(
                    hay@,
                    nee@.subrange(a, b),
                ) by {
                    if b > i as int {
                        // A token ending inside the current run would end at a
                        // non-space character, so it ends exactly at `j`.
                        assert(b == j as int);
                        // A token ending at `j` starts exactly where the run
                        // starts: the position before `i` is whitespace or the
                        // needle's start, and every position in the run is
                        // non-space.
                        if a < i as int {
                            assert(!is_space(nee@[i - 1]));
                            assert(false);
                        }
                        if a > i as int {
                            assert(!is_space(nee@[a - 1]));
                            assert(false);
                        }
                        assert(nee@.subrange(a, b) == tok@);
                    }
                }
            }
            i = j;
        }
    }
    proof {
        assert forall|a: int, b: int| #[trigger] token_at(nee@, a, b) implies contains_substring(
            hay@,
            nee@.subrange(a, b),
        ) by {
            assert(b <= n);
        }
    }
    true
}

/// Whether a stored needle matches a field under the name policy: every
/// token of the needle occurs in the lowercase folding of the field.
pub open spec fn field_matches_tokens(needle: Seq<char>, field: Seq<char>) -> bool {
    all_tokens_contained(needle, lower_of(field))
}

/// Whether a stored needle matches a row. A numeric needle must equal the
/// Number field exactly; any other needle must have all its tokens in the
/// People or in the Signature field. A field the row does not hold never
/// matches.
pub open spec fn row_matches(row: Seq<Seq<char>>, needle: Seq<char>) -> bool {
    if is_i32_numeral(needle) {
        Column::Number.as_index() < row.len() && row[Column::Number.as_index()] == needle
    } else {
        ||| Column::People.as_index() < row.len() && field_matches_tokens(
            needle,
            row[Column::People.as_index()],
        )
        ||| Column::Signature.as_index() < row.len() && field_matches_tokens(
            needle,
            row[Column::Signature.as_index()],
        )
    }
}

/// An empty needle matches every row that has a People field: it is no
/// numeral, and it has no tokens, so the containment test is vacuously
/// satisfied.
pub proof fn lemma_empty_needle_matches_all(row: Seq<Seq<char>>)
    requires
        Column::People.as_index() < row.len(),
    ensures
        row_matches(row, Seq::<char>::empty()),
{
    let empty = Seq::<char>::empty();
    assert(!is_i32_numeral(empty));
    assert forall|i: int, j: int| !token_at(empty, i, j) by {}
}

/// The search state: the needle captured at the last search event, already
/// folded to lowercase. An empty needle matches every row.
pub struct SearchEngine {
    pub needle: String,
}

impl View for SearchEngine {
    type V = Seq<char>;

    open spec fn view(&self) -> Seq<char> {
        self.needle@
    }
}

impl SearchEngine {
    /// Creates an engine with an empty needle.
    pub fn new() -> (e: SearchEngine)
        ensures
            e@ == Seq::<char>::empty(),
    {
        SearchEngine { needle: String::new() }
    }

    /// Captures a new needle, folding it to lowercase. Every later match
    /// uses the captured value, until the next capture.
    pub fn set_needle(&mut self, raw: &str)
        ensures
            final(self)@ == lower_of(raw@),
    {
        self.needle = lowercase(raw);
    }

    /// Whether one field of a row contains every token of the needle,
    /// case-insensitively.
    fn field_contains(&self, store: &RecordStore, h: RowHandle, col: Column) -> (r: bool)
        requires
            store.valid_handle(h),
        ensures
            r == (col.as_index() < store@[h.index as int].len() && field_matches_tokens(
                self@,
                store@[h.index as int][col.as_index()],
            )),
    {
        match store.get_field(h, col) {
            Some(v) => {
                let low = lowercase(v.as_str());
                let hay = chars_of(low.as_str());
                let nee = chars_of(self.needle.as_str());
                tokens_contained(&nee, &hay)
            },
            None => false,
        }
    }

    /// Decides whether the row a handle addresses is visible under the
    /// current needle.
    pub fn matches(&self, store: &RecordStore, h: RowHandle) -> (r: bool)
        requires
            store.valid_handle(h),
        ensures
            r == row_matches(store@[h.index as int], self@),
    {
        let needle_chars = chars_of(self.needle.as_str());
        if parse_i32(&needle_chars).is_some() {
            match store.get_field(h, Column::Number) {
                Some(v) => str_eq(v.as_str(), self.needle.as_str()),
                None => false,
            }
        } else {
            self.field_contains(store, h, Column::People) || self.field_contains(
                store,
                h,
                Column::Signature,
            )
        }
    }
}

} // verus!
