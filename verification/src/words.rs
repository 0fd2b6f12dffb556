//! Word-slice extraction: the words of a text are its maximal runs of
//! non-whitespace characters, counted from zero, left to right.

use vstd::prelude::*;

verus! {

/// The whitespace characters this library recognizes: the ASCII whitespace set.
pub open spec fn is_ws_char(c: char) -> bool {
    c == ' ' || c == '\t' || c == '\n' || c == '\r' || c == '\u{000B}' || c == '\u{000C}'
}

/// Length of the maximal run of non-whitespace characters at the front of `s`.
pub open spec fn non_ws_run(s: Seq<char>) -> int
    decreases s.len(),
{
    if s.len() == 0 || is_ws_char(s[0]) {
        0
    } else {
        1 + non_ws_run(s.skip(1))
    }
}

pub proof fn lemma_non_ws_run_bounds(s: Seq<char>)
    ensures
        0 <= non_ws_run(s) <= s.len(),
        forall|k: int| 0 <= k < non_ws_run(s) ==> !is_ws_char(s[k]),
        non_ws_run(s) < s.len() ==> is_ws_char(s[non_ws_run(s)]),
    decreases s.len(),
{
    if s.len() == 0 || is_ws_char(s[0]) {
    } else {
        lemma_non_ws_run_bounds(s.skip(1));
        assert forall|k: int| 0 <= k < non_ws_run(s) implies !is_ws_char(s[k]) by {
            if k >= 1 {
                assert(s.skip(1)[k - 1] == s[k]);
            }
        }
        if non_ws_run(s) < s.len() {
            assert(s.skip(1)[non_ws_run(s) - 1] == s[non_ws_run(s)]);
        }
    }
}

/// The run of non-whitespace characters at the front of `s` ends exactly at
/// the first whitespace character (or at the end of `s`).
pub proof fn lemma_non_ws_run_exact(s: Seq<char>, m: int)
    requires
        0 <= m <= s.len(),
        forall|k: int| 0 <= k < m ==> !is_ws_char(s[k]),
        m == s.len() || is_ws_char(s[m]),
    ensures
        non_ws_run(s) == m,
{
    lemma_non_ws_run_bounds(s);
}

/// The whitespace-delimited words of `s`, in order: each is a maximal run of
/// non-whitespace characters, and runs of whitespace separate them.
pub open spec fn words(s: Seq<char>) -> Seq<Seq<char>>
    decreases s.len(),
    via words_decreases
{
    if s.len() == 0 {
        Seq::empty()
    } else if is_ws_char(s[0]) {
        words(s.skip(1))
    } else {
        seq![s.take(non_ws_run(s))] + words(s.skip(non_ws_run(s)))
    }
}

#[via_fn]
proof fn words_decreases(s: Seq<char>) {
    if s.len() > 0 && !is_ws_char(s[0]) {
        lemma_non_ws_run_bounds(s);
        lemma_non_ws_run_bounds(s.skip(1));
        assert(non_ws_run(s) == 1 + non_ws_run(s.skip(1)));
    }
}

/// `s` with its leading and trailing whitespace removed.
pub open spec fn trim_spec(s: Seq<char>) -> Seq<char>
    decreases s.len(),
{
    if s.len() == 0 {
        s
    } else if is_ws_char(s[0]) {
        trim_spec(s.skip(1))
    } else if is_ws_char(s[s.len() - 1]) {
        trim_spec(s.take(s.len() - 1))
    } else {
        s
    }
}

/// What extracting the first word returns: the first word where there is one,
/// the empty sequence on an input that holds no word at all.
pub open spec fn first_word_spec(s: Seq<char>) -> Seq<char> {
    if words(s).len() == 0 {
        Seq::empty()
    } else {
        words(s)[0]
    }
}

/// Skipping a whitespace character changes no word.
proof fn lemma_words_skip_ws(s: Seq<char>, j: int)
    requires
        0 <= j < s.len(),
        is_ws_char(s[j]),
    ensures
        words(s.skip(j)) == words(s.skip(j + 1)),
{
    let t = s.skip(j);
    assert(t[0] == s[j]);
    assert(t.skip(1) =~= s.skip(j + 1));
}

/// A complete run of non-whitespace characters from `st` up to `j` is the
/// next word of the suffix that begins at `st`.
proof fn lemma_words_word_step(s: Seq<char>, st: int, j: int)
    requires
        0 <= st < j <= s.len(),
        forall|k: int| st <= k < j ==> !is_ws_char(s[k]),
        j == s.len() || is_ws_char(s[j]),
    ensures
        words(s.skip(st)) == seq![s.subrange(st, j)] + words(s.skip(j)),
{
    let t = s.skip(st);
    assert(t[0] == s[st]);
    assert forall|k: int| 0 <= k < j - st implies !is_ws_char(t[k]) by {
        assert(t[k] == s[st + k]);
    }
    if j < s.len() {
        assert(t[j - st] == s[j]);
    }
    lemma_non_ws_run_exact(t, j - st);
    assert(t.take(j - st) =~= s.subrange(st, j));
    assert(t.skip(j - st) =~= s.skip(j));
}

/// The word slices that a sequence of (start, end) index pairs cuts out of `s`.
spec fn bounds_words(bv: Seq<(usize, usize)>, s: Seq<char>) -> Seq<Seq<char>> {
    bv.map_values(|b: (usize, usize)| s.subrange(b.0 as int, b.1 as int))
}

/// Whether `c` is one of the whitespace characters of this library.
fn is_ws(c: char) -> (b: bool)
    ensures
        b == is_ws_char(c),
{
    c == ' ' || c == '\t' || c == '\n' || c == '\r' || c == '\u{000B}' || c == '\u{000C}'
}

/// One left-to-right scan of `text`: the (start, end) character offsets of
/// every word, in order.
fn word_bounds(text: &str) -> (v: Vec<(usize, usize)>)
    ensures
        v@.len() == words(text@).len(),
        forall|i: int| 0 <= i < v@.len() ==> (#[trigger] v@[i]).0 <= v@[i].1 <= text@.len(),
        forall|i: int|
            0 <= i < v@.len() ==> words(text@)[i] == text@.subrange(
                (#[trigger] v@[i]).0 as int,
                v@[i].1 as int,
            ),
{
    let ghost s = text@;
    let n = text.unicode_len();
    let mut v: Vec<(usize, usize)> = Vec::new();
    let mut start: Option<usize> = None;
    let mut j: usize = 0;
    proof {
        assert(s.skip(0) =~= s);
        assert(words(s) =~= bounds_words(v@, s) + words(s.skip(0)));
    }
    while j < n
        invariant
            n == s.len(),
            s == text@,
            j <= n,
            forall|i: int| 0 <= i < v@.len() ==> (#[trigger] v@[i]).0 <= v@[i].1 <= n,
            start matches Some(st) ==> st < j && (forall|k: int|
                st <= k < j ==> !is_ws_char(s[k])) && words(s) == bounds_words(v@, s) + words(
                s.skip(st as int),
            ),
            start is None ==> words(s) == bounds_words(v@, s) + words(s.skip(j as int)),
        decreases n - j,
    {
        let c = text.get_char(j);
        if is_ws(c) {
            match start {
                Some(st) => {
                    let ghost prev = v@;
                    proof {
                        lemma_words_word_step(s, st as int, j as int);
                        lemma_words_skip_ws(s, j as int);
                    }
                    v.push((st, j));
                    start = None;
                    proof {
                        assert(bounds_words(v@, s) =~= bounds_words(prev, s) + seq![
                            s.subrange(st as int, j as int),
                        ]);
                        assert(words(s) =~= bounds_words(v@, s) + words(s.skip(j as int + 1)));
                    }
                },
                None => {
                    proof {
                        lemma_words_skip_ws(s, j as int);
                    }
                },
            }
        } else {
            if start.is_none() {
                start = Some(j);
            }
        }
        j += 1;
    }
    match start {
        Some(st) => {
            let ghost prev = v@;
            proof {
                lemma_words_word_step(s, st as int, n as int);
                assert(s.skip(n as int).len() == 0);
            }
            v.push((st, n));
            proof {
                assert(bounds_words(v@, s) =~= bounds_words(prev, s) + seq![
                    s.subrange(st as int, n as int),
                ]);
                assert(words(s) =~= bounds_words(v@, s));
            }
        },
        None => {
            proof {
                assert(s.skip(n as int).len() == 0);
                assert(words(s) =~= bounds_words(v@, s));
            }
        },
    }
    v
}

/// The one way a word request can fail: the index names no word of the text.
#[derive(Debug, Clone, Copy, PartialEq, Eq, Structural)]
pub enum WordError {
    IndexOutOfRange,
}

/// The view of the word of `text` with the given zero-based index, and an
/// out-of-range report exactly when the text holds no such word.
pub fn extract_word<'a>(text: &'a str, index: usize) -> (r: Result<&'a str, WordError>)
    ensures
        match r {
            Ok(w) => index < words(text@).len() && w@ == words(text@)[index as int],
            Err(e) => index >= words(text@).len() && e == WordError::IndexOutOfRange,
        },
{
    let bounds = word_bounds(text);
    if index < bounds.len() {
        let (a, b) = bounds[index];
        Ok(text.substring_char(a, b))
    } else {
        Err(WordError::IndexOutOfRange)
    }
}

/// The view of the first word of `text`; on a text with no word at all (empty
/// or whitespace only) the empty view, which is the whole trimmed text.
pub fn extract_first_word<'a>(text: &'a str) -> (r: &'a str)
    ensures
        r@ == first_word_spec(text@),
{
    let bounds = word_bounds(text);
    if bounds.len() > 0 {
        let (a, b) = bounds[0];
        text.substring_char(a, b)
    } else {
        text.substring_char(0, 0)
    }
}

/// The first whitespace-delimited word of `phrase`, the whole trimmed phrase
/// when it holds no whitespace at all.
pub fn get_first<'a>(phrase: &'a str) -> (r: &'a str)
    ensures
        r@ == first_word_spec(phrase@),
{
    extract_first_word(phrase)
}

/// The word of `phrase` with the given zero-based index; a negative index, or
/// one at or past the word count, is reported as out of range.
pub fn get_word<'a>(phrase: &'a String, word: i32) -> (r: Result<&'a str, WordError>)
    ensures
        match r {
            Ok(w) => 0 <= word && word < words(phrase@).len() && w@ == words(phrase@)[word as int],
            Err(e) => (word < 0 || word >= words(phrase@).len()) && e == WordError::IndexOutOfRange,
        },
{
    if word < 0 {
        Err(WordError::IndexOutOfRange)
    } else {
        extract_word(phrase.as_str(), word as usize)
    }
}

/// No word holds a whitespace character: in particular, the leading and
/// trailing whitespace of the input never appears in a returned word.
pub proof fn lemma_words_no_ws(s: Seq<char>)
    ensures
        forall|i: int, k: int|
            0 <= i < words(s).len() && 0 <= k < words(s)[i].len() ==> !is_ws_char(
                #[trigger] words(s)[i][k],
            ),
    decreases s.len(),
{
    if s.len() == 0 {
    } else if is_ws_char(s[0]) {
        lemma_words_no_ws(s.skip(1));
        assert forall|i: int, k: int|
            0 <= i < words(s).len() && 0 <= k < words(s)[i].len() implies !is_ws_char(
            words(s)[i][k],
        ) by {
            assert(words(s)[i] == words(s.skip(1))[i]);
            assert(words(s.skip(1))[i][k] == words(s)[i][k]);
        }
    } else {
        lemma_non_ws_run_bounds(s);
        let r = non_ws_run(s);
        lemma_words_no_ws(s.skip(r));
        assert forall|i: int, k: int|
            0 <= i < words(s).len() && 0 <= k < words(s)[i].len() implies !is_ws_char(
            words(s)[i][k],
        ) by {
            if i == 0 {
                assert(words(s)[0] == s.take(r));
                assert(s.take(r)[k] == s[k]);
            } else {
                assert(words(s)[i] == words(s.skip(r))[i - 1]);
            }
        }
    }
}

/// A text holds no word at all exactly when every one of its characters is
/// whitespace.
pub proof fn lemma_no_words_iff_all_ws(s: Seq<char>)
    ensures
        words(s).len() == 0 <==> (forall|k: int| 0 <= k < s.len() ==> is_ws_char(s[k])),
    decreases s.len(),
{
    if s.len() == 0 {
    } else if is_ws_char(s[0]) {
        lemma_no_words_iff_all_ws(s.skip(1));
        assert(words(s) == words(s.skip(1)));
        if words(s).len() == 0 {
            assert forall|k: int| 0 <= k < s.len() implies is_ws_char(s[k]) by {
                if k > 0 {
                    assert(s.skip(1)[k - 1] == s[k]);
                }
            }
        } else {
            assert(!(forall|k: int| 0 <= k < s.skip(1).len() ==> is_ws_char(s.skip(1)[k])));
            let k0 = choose|k: int| 0 <= k < s.skip(1).len() && !is_ws_char(s.skip(1)[k]);
            assert(s.skip(1)[k0] == s[k0 + 1]);
            assert(!is_ws_char(s[k0 + 1]));
        }
    } else {
        assert(words(s).len() > 0);
        assert(!is_ws_char(s[0]));
    }
}

/// Dropping a trailing whitespace character changes no word.
proof fn lemma_words_drop_last_ws(s: Seq<char>)
    requires
        s.len() > 0,
        is_ws_char(s[s.len() - 1]),
    ensures
        words(s.take(s.len() - 1)) == words(s),
    decreases s.len(),
{
    let t = s.take(s.len() - 1);
    if s.len() == 1 {
        assert(t.len() == 0);
        assert(words(s) == words(s.skip(1)));
        assert(s.skip(1).len() == 0);
    } else if is_ws_char(s[0]) {
        assert(t[0] == s[0]);
        assert(words(s) == words(s.skip(1)));
        assert(words(t) == words(t.skip(1)));
        lemma_words_drop_last_ws(s.skip(1));
        assert(t.skip(1) =~= s.skip(1).take(s.skip(1).len() - 1));
    } else {
        lemma_non_ws_run_bounds(s);
        let r = non_ws_run(s);
        assert(r < s.len());
        assert(t[0] == s[0]);
        assert forall|k: int| 0 <= k < r implies !is_ws_char(t[k]) by {
            assert(t[k] == s[k]);
        }
        if r < t.len() {
            assert(t[r] == s[r]);
        }
        lemma_non_ws_run_exact(t, r);
        assert(t.take(r) =~= s.take(r));
        if r == s.len() - 1 {
            assert(t.skip(r).len() == 0);
            assert(words(t) == seq![t.take(r)] + words(t.skip(r)));
            let u = s.skip(r);
            assert(u[0] == s[r]);
            assert(is_ws_char(u[0]));
            assert(words(u) == words(u.skip(1)));
            assert(u.skip(1).len() == 0);
            assert(words(t) =~= words(s));
        } else {
            lemma_words_drop_last_ws(s.skip(r));
            assert(t.skip(r) =~= s.skip(r).take(s.skip(r).len() - 1));
            assert(words(t) == seq![t.take(r)] + words(t.skip(r)));
            assert(words(t) =~= words(s));
        }
    }
}

/// Trimming the text changes no word.
pub proof fn lemma_words_trim(s: Seq<char>)
    ensures
        words(trim_spec(s)) == words(s),
    decreases s.len(),
{
    if s.len() == 0 {
    } else if is_ws_char(s[0]) {
        lemma_words_trim(s.skip(1));
    } else if is_ws_char(s[s.len() - 1]) {
        lemma_words_drop_last_ws(s);
        lemma_words_trim(s.take(s.len() - 1));
    } else {
    }
}

/// A non-empty trimmed text neither begins nor ends with whitespace.
pub proof fn lemma_trim_no_edge_ws(s: Seq<char>)
    ensures
        trim_spec(s).len() > 0 ==> !is_ws_char(trim_spec(s)[0]) && !is_ws_char(
            trim_spec(s)[trim_spec(s).len() - 1],
        ),
    decreases s.len(),
{
    if s.len() == 0 {
    } else if is_ws_char(s[0]) {
        lemma_trim_no_edge_ws(s.skip(1));
    } else if is_ws_char(s[s.len() - 1]) {
        lemma_trim_no_edge_ws(s.take(s.len() - 1));
    } else {
    }
}

/// On a text that holds exactly one word, that word is the whole trimmed text.
pub proof fn lemma_single_word(s: Seq<char>)
    requires
        words(s).len() == 1,
    ensures
        words(s)[0] == trim_spec(s),
{
    lemma_words_trim(s);
    lemma_trim_no_edge_ws(s);
    let t = trim_spec(s);
    if t.len() == 0 {
        assert(words(t).len() == 0);
        assert(false);
    }
    assert(!is_ws_char(t[0]));
    lemma_non_ws_run_bounds(t);
    let r = non_ws_run(t);
    assert(words(t) == seq![t.take(r)] + words(t.skip(r)));
    assert(words(t.skip(r)).len() == 0);
    lemma_no_words_iff_all_ws(t.skip(r));
    if r < t.len() {
        assert(t.skip(r)[t.len() - 1 - r] == t[t.len() - 1]);
        assert(is_ws_char(t[t.len() - 1]));
        assert(false);
    }
    assert(t.take(r) =~= t);
    assert(words(s)[0] == t);
}

/// Extraction is a function of its inputs alone: two calls of `extract_word`
/// on the same text and index return the same characters, each result being
/// pinned to the word `words(text)` holds at that index.
pub proof fn lemma_extract_word_deterministic(
    s: Seq<char>,
    index: int,
    w1: Seq<char>,
    w2: Seq<char>,
)
    requires
        0 <= index < words(s).len(),
        w1 == words(s)[index],
        w2 == words(s)[index],
    ensures
        w1 == w2,
{
}

} // verus!
