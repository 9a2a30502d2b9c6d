//! Text as characters: reading a string's characters, splitting a line into
//! words, trimming, and searching for a text in another.

use vstd::prelude::*;
use vstd::string::*;
use vstd::std_specs::iter::IteratorSpec;

verus! {

/// The characters of a string, in order.
pub fn to_chars(s: &str) -> (chars: Vec<char>)
    ensures
        chars@ == s@,
{
    broadcast use vstd::string::group_string_axioms;

    let mut it = s.chars();
    let mut chars: Vec<char> = Vec::new();
    loop
        invariant
            it.obeys_prophetic_iter_laws(),
            chars@ + it.remaining() == s@,
        decreases s@.len() - chars@.len(),
    {
        let ghost before = it.remaining();
        match it.next() {
            Some(c) => {
                chars.push(c);
                proof {
                    assert(chars@ + it.remaining() =~= (chars@.drop_last() + before));
                }
            },
            None => {
                proof {
                    assert(chars@ + it.remaining() =~= chars@);
                }
                return chars;
            },
        }
    }
}

/// Whether two strings hold the same characters.
pub fn same_text(a: &str, b: &str) -> (same: bool)
    ensures
        same == (a@ == b@),
{
    let left = to_chars(a);
    let right = to_chars(b);
    same_chars(&left, &right)
}

/// Whether two character sequences are equal.
pub fn same_chars(a: &Vec<char>, b: &Vec<char>) -> (same: bool)
    ensures
        same == (a@ == b@),
{
    if a.len() != b.len() {
        return false;
    }
    let mut i: usize = 0;
    while i < a.len()
        invariant
            a.len() == b.len(),
            i <= a.len(),
            forall|j: int| 0 <= j < i ==> a@[j] == b@[j],
        decreases a.len() - i,
    {
        if a[i] != b[i] {
            return false;
        }
        i += 1;
    }
    proof {
        assert(a@ =~= b@);
    }
    true
}

/// ASCII whitespace: space, tab, line feed, form feed and carriage return.
pub open spec fn is_space(c: char) -> bool {
    c == ' ' || c == '\t' || c == '\n' || c == '\x0C' || c == '\r'
}

/// Tests a character for ASCII whitespace.
pub fn is_space_char(c: char) -> (space: bool)
    ensures
        space == is_space(c),
{
    c == ' ' || c == '\t' || c == '\n' || c == '\x0C' || c == '\r'
}

/// The length of the longest run of characters that starts at `from` and
/// consists of whitespace only (`space` true) or of no whitespace at all
/// (`space` false).
pub open spec fn run(s: Seq<char>, from: int, space: bool) -> nat
    decreases s.len() - from,
{
    if 0 <= from < s.len() && is_space(s[from]) == space {
        1 + run(s, from + 1, space)
    } else {
        0
    }
}

/// A run that starts inside `s` ends inside it.
pub proof fn lemma_run_bound(s: Seq<char>, from: int, space: bool)
    requires
        0 <= from <= s.len(),
    ensures
        from + run(s, from, space) <= s.len(),
    decreases s.len() - from,
{
    if from < s.len() && is_space(s[from]) == space {
        lemma_run_bound(s, from + 1, space);
    }
}

/// The characters of a run are all of its kind, and the run ends at the end
/// of `s` or before a character of the other kind.
pub proof fn lemma_run_is_maximal(s: Seq<char>, from: int, space: bool)
    requires
        0 <= from <= s.len(),
    ensures
        forall|j: int| from <= j < from + run(s, from, space) ==> is_space(#[trigger] s[j]) == space,
        from + run(s, from, space) < s.len() ==> is_space(s[from + run(s, from, space)]) != space,
    decreases s.len() - from,
{
    if from < s.len() && is_space(s[from]) == space {
        lemma_run_is_maximal(s, from + 1, space);
    }
}

/// The words of `s` that start at or after `from`, in order, where `from`
/// does not stand inside a word: whitespace is passed over, and a word runs
/// up to the next whitespace or the end of `s`.
pub open spec fn tokens_from(s: Seq<char>, from: int) -> Seq<Seq<char>>
    decreases s.len() - from,
{
    if from < 0 || from >= s.len() {
        Seq::empty()
    } else if is_space(s[from]) {
        tokens_from(s, from + 1)
    } else {
        let n = 1 + run(s, from + 1, false);
        proof {
            lemma_run_bound(s, from + 1, false);
        }
        seq![s.subrange(from, from + n)] + tokens_from(s, from + n)
    }
}

/// The words of a line: its maximal runs of characters that are not ASCII
/// whitespace, in order.
pub open spec fn tokens(s: Seq<char>) -> Seq<Seq<char>> {
    tokens_from(s, 0)
}

/// A word: one character or more, none of them whitespace.
pub open spec fn is_word(w: Seq<char>) -> bool {
    w.len() > 0 && forall|j: int| 0 <= j < w.len() ==> !is_space(#[trigger] w[j])
}

/// Every token of a line is a word.
pub proof fn lemma_tokens_are_words(s: Seq<char>, from: int)
    ensures
        forall|i: int|
            0 <= i < tokens_from(s, from).len() ==> is_word(#[trigger] tokens_from(s, from)[i]),
    decreases s.len() - from,
{
    if from < 0 || from >= s.len() {
        assert(tokens_from(s, from).len() == 0);
    } else if is_space(s[from]) {
        lemma_tokens_are_words(s, from + 1);
        assert(tokens_from(s, from) == tokens_from(s, from + 1));
    } else {
        let n = 1 + run(s, from + 1, false);
        lemma_run_bound(s, from + 1, false);
        lemma_run_is_maximal(s, from + 1, false);
        lemma_tokens_are_words(s, from + n);
        let first = s.subrange(from, from + n);
        assert forall|j: int| 0 <= j < first.len() implies !is_space(#[trigger] first[j]) by {
            assert(first[j] == s[from + j]);
        }
        assert(is_word(first));
        let rest = tokens_from(s, from + n);
        assert(tokens_from(s, from) == seq![first] + rest);
        assert forall|i: int| 0 <= i < tokens_from(s, from).len() implies is_word(
            #[trigger] tokens_from(s, from)[i],
        ) by {
            if i > 0 {
                assert(tokens_from(s, from)[i] == rest[i - 1]);
            } else {
                assert(tokens_from(s, from)[i] == first);
            }
        }
    }
}

/// The views of a vector of strings.
pub open spec fn texts(v: Seq<String>) -> Seq<Seq<char>> {
    Seq::new(v.len(), |i: int| v[i]@)
}

/// The end of the run of the given kind that starts at `from`.
pub(crate) fn run_end(chars: &Vec<char>, from: usize, space: bool) -> (end: usize)
    requires
        from <= chars.len(),
    ensures
        end == from + run(chars@, from as int, space),
        end <= chars.len(),
{
    let mut j: usize = from;
    while j < chars.len() && is_space_char(chars[j]) == space
        invariant
            from <= j <= chars.len(),
            run(chars@, from as int, space) == (j - from) + run(chars@, j as int, space),
        decreases chars.len() - j,
    {
        j += 1;
    }
    j
}

/// Splits a line into its words.
pub fn split_tokens(line: &str) -> (words: Vec<String>)
    ensures
        texts(words@) == tokens(line@),
{
    let chars = to_chars(line);
    let mut words: Vec<String> = Vec::new();
    let mut i: usize = 0;
    while i < chars.len()
        invariant
            chars@ == line@,
            i <= chars.len(),
            texts(words@) + tokens_from(chars@, i as int) == tokens(chars@),
        decreases chars.len() - i,
    {
        if is_space_char(chars[i]) {
            i += 1;
        } else {
            let j = run_end(&chars, i, false);
            let word = String::from_str(line.substring_char(i, j));
            let ghost before = texts(words@);
            words.push(word);
            proof {
                assert(texts(words@) =~= before.push(chars@.subrange(i as int, j as int)));
                assert(texts(words@) + tokens_from(chars@, j as int) =~= before + tokens_from(
                    chars@,
                    i as int,
                ));
            }
            i = j;
        }
    }
    proof {
        assert(texts(words@) + tokens_from(chars@, i as int) =~= texts(words@));
    }
    words
}

/// The number of whitespace characters at the end of `s`.
pub open spec fn trailing(s: Seq<char>) -> nat
    decreases s.len(),
{
    if s.len() > 0 && is_space(s.last()) {
        1 + trailing(s.drop_last())
    } else {
        0
    }
}

/// `s` without the whitespace at its start.
pub open spec fn trim_start(s: Seq<char>) -> Seq<char> {
    s.skip(run(s, 0, true) as int)
}

/// `s` without the whitespace at its end.
pub open spec fn trim_end(s: Seq<char>) -> Seq<char> {
    s.take(s.len() - trailing(s))
}

/// `s` without the whitespace at its start and at its end.
pub open spec fn trim(s: Seq<char>) -> Seq<char> {
    trim_end(trim_start(s))
}

/// The whitespace at the end of `s` is no longer than `s`, and what stands
/// before it does not end in whitespace.
pub proof fn lemma_trailing_is_maximal(s: Seq<char>)
    ensures
        trailing(s) <= s.len(),
        trailing(s) < s.len() ==> !is_space(s[s.len() - trailing(s) - 1]),
    decreases s.len(),
{
    if s.len() > 0 && is_space(s.last()) {
        lemma_trailing_is_maximal(s.drop_last());
    }
}

/// What is left after trimming neither starts nor ends with whitespace.
pub proof fn lemma_trim_is_trimmed(s: Seq<char>)
    ensures
        trim(s).len() > 0 ==> !is_space(trim(s).first()) && !is_space(trim(s).last()),
{
    lemma_run_bound(s, 0, true);
    lemma_run_is_maximal(s, 0, true);
    lemma_trailing_is_maximal(trim_start(s));
}

/// Trims the part of `chars` from `lo` to `hi`: returns the bounds of what
/// is left of it.
pub(crate) fn trim_range(chars: &Vec<char>, lo: usize, hi: usize) -> (bounds: (usize, usize))
    requires
        lo <= hi <= chars.len(),
    ensures
        lo <= bounds.0 <= bounds.1 <= hi,
        chars@.subrange(bounds.0 as int, bounds.1 as int) == trim(
            chars@.subrange(lo as int, hi as int),
        ),
{
    let ghost part = chars@.subrange(lo as int, hi as int);
    let mut a: usize = lo;
    while a < hi && is_space_char(chars[a])
        invariant
            lo <= a <= hi <= chars.len(),
            part == chars@.subrange(lo as int, hi as int),
            run(part, 0, true) == (a - lo) + run(part, a - lo, true),
        decreases hi - a,
    {
        a += 1;
    }
    let ghost front = chars@.subrange(a as int, hi as int);
    proof {
        assert(trim_start(part) =~= front);
    }
    let mut b: usize = hi;
    while b > a && is_space_char(chars[b - 1])
        invariant
            a <= b <= hi <= chars.len(),
            front == chars@.subrange(a as int, hi as int),
            trailing(front) == (hi - b) + trailing(chars@.subrange(a as int, b as int)),
        decreases b - a,
    {
        proof {
            assert(chars@.subrange(a as int, b as int).drop_last() =~= chars@.subrange(
                a as int,
                b - 1,
            ));
        }
        b -= 1;
    }
    proof {
        assert(trim_end(front) =~= chars@.subrange(a as int, b as int));
    }
    (a, b)
}

/// Whether `pat` stands in `s` at index `at`.
pub open spec fn occurs_at(s: Seq<char>, pat: Seq<char>, at: int) -> bool {
    0 <= at && at + pat.len() <= s.len() && s.subrange(at, at + pat.len()) == pat
}

/// The least index at or after `from` at which `pat` stands in `s`.
pub open spec fn find_from(s: Seq<char>, pat: Seq<char>, from: int) -> Option<int>
    decreases s.len() + 1 - from,
{
    if from < 0 || from + pat.len() > s.len() {
        None
    } else if occurs_at(s, pat, from) {
        Some(from)
    } else {
        find_from(s, pat, from + 1)
    }
}

/// The index of the first occurrence of `pat` in `s`.
pub open spec fn find(s: Seq<char>, pat: Seq<char>) -> Option<int> {
    find_from(s, pat, 0)
}

/// What `find_from` returns is the first place at or after `from` where
/// `pat` stands, and it returns none only where `pat` stands nowhere there.
pub proof fn lemma_find_is_first(s: Seq<char>, pat: Seq<char>, from: int)
    requires
        0 <= from,
    ensures
        match find_from(s, pat, from) {
            Some(at) => from <= at && occurs_at(s, pat, at) && forall|j: int|
                from <= j < at ==> !occurs_at(s, pat, j),
            None => forall|j: int| from <= j ==> !occurs_at(s, pat, j),
        },
    decreases s.len() + 1 - from,
{
    if from + pat.len() > s.len() {
    } else if occurs_at(s, pat, from) {
    } else {
        lemma_find_is_first(s, pat, from + 1);
    }
}

/// Whether `pat` stands in `chars` at index `at`.
fn occurs_here(chars: &Vec<char>, pat: &Vec<char>, at: usize) -> (found: bool)
    requires
        at + pat.len() <= chars.len(),
    ensures
        found == occurs_at(chars@, pat@, at as int),
{
    let mut k: usize = 0;
    while k < pat.len()
        invariant
            k <= pat.len(),
            at + pat.len() <= chars.len(),
            forall|j: int| 0 <= j < k ==> chars@[at + j] == pat@[j],
        decreases pat.len() - k,
    {
        if chars[at + k] != pat[k] {
            proof {
                assert(chars@.subrange(at as int, at + pat.len())[k as int] != pat@[k as int]);
            }
            return false;
        }
        k += 1;
    }
    proof {
        assert(chars@.subrange(at as int, at + pat.len()) =~= pat@);
    }
    true
}

/// Searches `chars` for the first occurrence of `pat`.
pub fn find_chars(chars: &Vec<char>, pat: &Vec<char>) -> (at: Option<usize>)
    ensures
        match at {
            Some(i) => find(chars@, pat@) == Some(i as int) && i + pat.len() <= chars.len(),
            None => find(chars@, pat@) is None,
        },
{
    if pat.len() > chars.len() {
        return None;
    }
    let last: usize = chars.len() - pat.len();
    let mut i: usize = 0;
    loop
        invariant
            last == chars.len() - pat.len(),
            i <= last,
            find_from(chars@, pat@, i as int) == find(chars@, pat@),
        decreases last - i,
    {
        if occurs_here(chars, pat, i) {
            return Some(i);
        }
        if i == last {
            proof {
                assert(find_from(chars@, pat@, i + 1) is None);
            }
            return None;
        }
        i += 1;
    }
}

} // verus!
