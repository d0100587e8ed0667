//! Character-buffer utilities shared by the tokenizer and the resolver:
//! pattern search, whitespace classification and trimming, and
//! whitespace-separated token splitting, each with an exact functional
//! description.

use vstd::prelude::*;
use vstd::std_specs::iter::IteratorSpec;

verus! {

/// The Unicode `White_Space` characters, the set that both trimming and
/// token splitting go by.
pub open spec fn is_space_char(c: char) -> bool {
    c == ' ' || c == '\u{9}' || c == '\u{A}' || c == '\u{B}' || c == '\u{C}' || c == '\u{D}'
        || c == '\u{85}' || c == '\u{A0}' || c == '\u{1680}' || c == '\u{2000}' || c == '\u{2001}'
        || c == '\u{2002}' || c == '\u{2003}' || c == '\u{2004}' || c == '\u{2005}'
        || c == '\u{2006}' || c == '\u{2007}' || c == '\u{2008}' || c == '\u{2009}'
        || c == '\u{200A}' || c == '\u{2028}' || c == '\u{2029}' || c == '\u{202F}'
        || c == '\u{205F}' || c == '\u{3000}'
}

#[verifier::when_used_as_spec(is_space_char)]
pub fn is_space(c: char) -> (r: bool)
    ensures
        r == is_space_char(c),
{
    c == ' ' || c == '\u{9}' || c == '\u{A}' || c == '\u{B}' || c == '\u{C}' || c == '\u{D}'
        || c == '\u{85}' || c == '\u{A0}' || c == '\u{1680}' || c == '\u{2000}' || c == '\u{2001}'
        || c == '\u{2002}' || c == '\u{2003}' || c == '\u{2004}' || c == '\u{2005}'
        || c == '\u{2006}' || c == '\u{2007}' || c == '\u{2008}' || c == '\u{2009}'
        || c == '\u{200A}' || c == '\u{2028}' || c == '\u{2029}' || c == '\u{202F}'
        || c == '\u{205F}' || c == '\u{3000}'
}

/// `pat` occurs in `s` starting at index `i`.
pub open spec fn matches_at(s: Seq<char>, pat: Seq<char>, i: int) -> bool {
    0 <= i && i + pat.len() <= s.len() && s.subrange(i, i + pat.len()) == pat
}

/// The first index at or after `from` where `pat` occurs in `s`.
pub open spec fn spec_find(s: Seq<char>, pat: Seq<char>, from: int) -> Option<int>
    decreases s.len() - from,
{
    if pat.len() <= 0 || from < 0 || from + pat.len() > s.len() {
        None
    } else if s.subrange(from, from + pat.len()) == pat {
        Some(from)
    } else {
        spec_find(s, pat, from + 1)
    }
}

pub proof fn lemma_spec_find_props(s: Seq<char>, pat: Seq<char>, from: int)
    ensures
        spec_find(s, pat, from) matches Some(i) ==> 0 <= from <= i && i + pat.len() <= s.len()
            && matches_at(s, pat, i),
    decreases s.len() - from,
{
    if !(pat.len() <= 0 || from < 0 || from + pat.len() > s.len())
        && s.subrange(from, from + pat.len()) != pat {
        lemma_spec_find_props(s, pat, from + 1);
    }
}

/// The first index at or after `i` holding a non-space character (or the
/// end of `s`).
pub open spec fn skip_spaces(s: Seq<char>, i: int) -> int
    decreases s.len() - i,
{
    if 0 <= i && i < s.len() && is_space_char(s[i]) {
        skip_spaces(s, i + 1)
    } else {
        i
    }
}

pub proof fn lemma_skip_spaces(s: Seq<char>, i: int)
    requires
        0 <= i <= s.len(),
    ensures
        i <= skip_spaces(s, i) <= s.len(),
        forall|j: int| i <= j < skip_spaces(s, i) ==> is_space_char(s[j]),
        skip_spaces(s, i) < s.len() ==> !is_space_char(s[skip_spaces(s, i)]),
    decreases s.len() - i,
{
    if 0 <= i && i < s.len() && is_space_char(s[i]) {
        lemma_skip_spaces(s, i + 1);
    }
}

/// The end of the non-space run beginning at `i`: the first index at or
/// after `i` holding a space (or the end of `s`).
pub open spec fn scan_token(s: Seq<char>, i: int) -> int
    decreases s.len() - i,
{
    if 0 <= i && i < s.len() && !is_space_char(s[i]) {
        scan_token(s, i + 1)
    } else {
        i
    }
}

pub proof fn lemma_scan_token(s: Seq<char>, i: int)
    requires
        0 <= i <= s.len(),
    ensures
        i <= scan_token(s, i) <= s.len(),
        i < s.len() && !is_space_char(s[i]) ==> i + 1 <= scan_token(s, i),
        forall|j: int| i <= j < scan_token(s, i) ==> !is_space_char(s[j]),
        scan_token(s, i) < s.len() ==> is_space_char(s[scan_token(s, i)]),
    decreases s.len() - i,
{
    if 0 <= i && i < s.len() && !is_space_char(s[i]) {
        lemma_scan_token(s, i + 1);
    }
}

/// Moves `hi` back over the spaces that end `s.subrange(lo, hi)`.
pub open spec fn trim_back(s: Seq<char>, lo: int, hi: int) -> int
    decreases hi - lo,
{
    if 0 <= lo && lo < hi && hi <= s.len() && is_space_char(s[hi - 1]) {
        trim_back(s, lo, hi - 1)
    } else {
        hi
    }
}

/// The whitespace-separated tokens of `s` from index `i` on.
pub open spec fn tokens_from(s: Seq<char>, i: int) -> Seq<Seq<char>>
    decreases s.len() - i,
{
    if i < 0 || i >= s.len() {
        Seq::empty()
    } else {
        let j = skip_spaces(s, i);
        if j >= s.len() {
            Seq::empty()
        } else {
            proof {
                lemma_skip_spaces(s, i);
                lemma_scan_token(s, j);
            }
            let k = scan_token(s, j);
            seq![s.subrange(j, k)] + tokens_from(s, k)
        }
    }
}

/// The whitespace-separated tokens of `s`.
pub open spec fn tokens_of(s: Seq<char>) -> Seq<Seq<char>> {
    tokens_from(s, 0)
}

/// True on exactly the inputs on which `pat` occurs in `s` at index `i`.
pub fn match_at(s: &Vec<char>, pat: &Vec<char>, i: usize) -> (r: bool)
    requires
        i + pat@.len() <= s@.len(),
    ensures
        r == matches_at(s@, pat@, i as int),
{
    let n = s.len();
    let mut j: usize = 0;
    while j < pat.len()
        invariant
            0 <= j <= pat@.len(),
            i + pat@.len() <= s@.len(),
            n == s@.len(),
            forall|k: int| 0 <= k < j ==> s@[i + k] == pat@[k],
        decreases pat@.len() - j,
    {
        if s[i + j] != pat[j] {
            assert(s@.subrange(i as int, i + pat@.len())[j as int] != pat@[j as int]);
            return false;
        }
        j += 1;
    }
    assert(s@.subrange(i as int, i + pat@.len()) =~= pat@);
    true
}

/// The first occurrence of `pat` in `s` at or after `from`.
pub fn find_from(s: &Vec<char>, pat: &Vec<char>, from: usize) -> (r: Option<usize>)
    requires
        from <= s@.len(),
        1 <= pat@.len(),
    ensures
        match r {
            Some(i) => from <= i && i + pat@.len() <= s@.len() && matches_at(s@, pat@, i as int)
                && spec_find(s@, pat@, from as int) == Some(i as int),
            None => spec_find(s@, pat@, from as int) is None,
        },
{
    if pat.len() > s.len() {
        return None;
    }
    let n = s.len();
    let last = n - pat.len();
    if from > last {
        return None;
    }
    let mut i: usize = from;
    while i <= last
        invariant
            from <= i <= last + 1,
            last + pat@.len() == s@.len(),
            n == s@.len(),
            1 <= pat@.len(),
            spec_find(s@, pat@, from as int) == spec_find(s@, pat@, i as int),
        decreases last + 1 - i,
    {
        if match_at(s, pat, i) {
            return Some(i);
        }
        assert(spec_find(s@, pat@, i as int) == spec_find(s@, pat@, i + 1));
        i += 1;
    }
    None
}

/// The first index at or after `i` holding a non-space character.
pub fn skip_spaces_exec(s: &Vec<char>, i: usize) -> (r: usize)
    requires
        i <= s@.len(),
    ensures
        i <= r <= s@.len(),
        r as int == skip_spaces(s@, i as int),
{
    let mut j: usize = i;
    while j < s.len() && is_space(s[j])
        invariant
            i <= j <= s@.len(),
            skip_spaces(s@, i as int) == skip_spaces(s@, j as int),
        decreases s@.len() - j,
    {
        j += 1;
    }
    proof {
        lemma_skip_spaces(s@, i as int);
    }
    j
}

/// The end of the non-space run beginning at `i`.
pub fn scan_token_exec(s: &Vec<char>, i: usize) -> (r: usize)
    requires
        i <= s@.len(),
    ensures
        i <= r <= s@.len(),
        r as int == scan_token(s@, i as int),
{
    let mut j: usize = i;
    while j < s.len() && !is_space(s[j])
        invariant
            i <= j <= s@.len(),
            scan_token(s@, i as int) == scan_token(s@, j as int),
        decreases s@.len() - j,
    {
        j += 1;
    }
    proof {
        lemma_scan_token(s@, i as int);
    }
    j
}

/// Moves `hi` back over trailing spaces.
pub fn trim_back_exec(s: &Vec<char>, lo: usize, hi: usize) -> (r: usize)
    requires
        lo <= hi <= s@.len(),
    ensures
        lo <= r <= hi,
        r as int == trim_back(s@, lo as int, hi as int),
{
    let mut j: usize = hi;
    while j > lo && is_space(s[j - 1])
        invariant
            lo <= j <= hi <= s@.len(),
            trim_back(s@, lo as int, hi as int) == trim_back(s@, lo as int, j as int),
        decreases j,
    {
        j -= 1;
    }
    j
}

/// A copy of `s.subrange(lo, hi)` as an owned buffer.
pub fn copy_range(s: &Vec<char>, lo: usize, hi: usize) -> (r: Vec<char>)
    requires
        lo <= hi <= s@.len(),
    ensures
        r@ == s@.subrange(lo as int, hi as int),
{
    let mut r: Vec<char> = Vec::new();
    let mut i: usize = lo;
    while i < hi
        invariant
            lo <= i <= hi <= s@.len(),
            r@ == s@.subrange(lo as int, i as int),
        decreases hi - i,
    {
        r.push(s[i]);
        i += 1;
        assert(r@ =~= s@.subrange(lo as int, i as int));
    }
    r
}

/// True on exactly the inputs on which the two buffers hold the same text.
pub fn eq_chars(a: &Vec<char>, b: &Vec<char>) -> (r: bool)
    ensures
        r == (a@ == b@),
{
    if a.len() != b.len() {
        return false;
    }
    let mut i: usize = 0;
    while i < a.len()
        invariant
            0 <= i <= a@.len(),
            a@.len() == b@.len(),
            forall|k: int| 0 <= k < i ==> a@[k] == b@[k],
        decreases a@.len() - i,
    {
        if a[i] != b[i] {
            return false;
        }
        i += 1;
    }
    assert(a@ =~= b@);
    true
}

/// The whitespace-separated tokens of `s`, each as an owned buffer.
pub fn split_tokens(s: &Vec<char>) -> (r: Vec<Vec<char>>)
    ensures
        r.deep_view() == tokens_of(s@),
{
    let mut r: Vec<Vec<char>> = Vec::new();
    let mut i: usize = skip_spaces_exec(s, 0);
    proof {
        lemma_skip_spaces(s@, 0);
        assert(skip_spaces(s@, i as int) == i as int);
        assert(tokens_from(s@, 0) =~= r.deep_view() + tokens_from(s@, i as int));
    }
    while i < s.len()
        invariant
            0 <= i <= s@.len(),
            skip_spaces(s@, i as int) == i as int,
            tokens_of(s@) == r.deep_view() + tokens_from(s@, i as int),
        decreases s@.len() - i,
    {
        let k = scan_token_exec(s, i);
        proof {
            lemma_scan_token(s@, i as int);
        }
        let t = copy_range(s, i, k);
        let ghost old_r = r.deep_view();
        r.push(t);
        proof {
            assert(r.deep_view() =~~= old_r.push(t@));
        }
        let n = skip_spaces_exec(s, k);
        proof {
            lemma_skip_spaces(s@, k as int);
            assert(skip_spaces(s@, n as int) == n as int);
            assert(tokens_from(s@, i as int) == seq![s@.subrange(i as int, k as int)]
                + tokens_from(s@, k as int));
            assert(tokens_from(s@, k as int) == tokens_from(s@, n as int));
            assert(tokens_of(s@) =~= r.deep_view() + tokens_from(s@, n as int));
        }
        i = n;
    }
    proof {
        assert(tokens_from(s@, i as int) =~= Seq::<Seq<char>>::empty());
        assert(tokens_of(s@) =~= r.deep_view());
    }
    r
}

/// The characters of `s` as an owned buffer.
pub fn chars_of(s: &str) -> (r: Vec<char>)
    ensures
        r@ == s@,
{
    broadcast use vstd::string::axiom_spec_iter;
    broadcast use vstd::string::next_postcondition;

    let mut it = s.chars();
    let mut r: Vec<char> = Vec::new();
    loop
        invariant
            it.obeys_prophetic_iter_laws(),
            r@ + it.remaining() == s@,
        decreases s@.len() - r@.len(),
    {
        match it.next() {
            Some(c) => {
                r.push(c);
                assert(r@ + it.remaining() =~= s@);
            },
            None => {
                assert(r@ =~= s@);
                return r;
            },
        }
    }
}

/// Relies on `String::push`: appends the given character to the end of
/// the string.
#[verifier::external_body]
fn push_char(s: &mut String, c: char)
    ensures
        final(s)@ == old(s)@.push(c),
{
    s.push(c);
}

/// The text of `v` as an owned string.
pub fn chars_to_string(v: &Vec<char>) -> (r: String)
    ensures
        r@ == v@,
{
    let mut r = String::new();
    let mut i: usize = 0;
    while i < v.len()
        invariant
            0 <= i <= v@.len(),
            r@ == v@.subrange(0, i as int),
        decreases v@.len() - i,
    {
        push_char(&mut r, v[i]);
        i += 1;
        assert(r@ =~= v@.subrange(0, i as int));
    }
    assert(r@ =~= v@);
    r
}

} // verus!
