//! Character-level text operations over `Seq<char>`: trimming, prefix and
//! suffix stripping and splitting at a character, together with executable
//! versions that work on index ranges of a character vector.
use vstd::prelude::*;

verus! {

/// Whether `c` has the Unicode `White_Space` property (the characters that
/// `char::is_whitespace` and `str::trim` treat as whitespace).
pub open spec fn is_ws(c: char) -> bool {
    ||| ('\u{9}' <= c && c <= '\u{d}')
    ||| c == ' '
    ||| c == '\u{85}'
    ||| c == '\u{a0}'
    ||| c == '\u{1680}'
    ||| ('\u{2000}' <= c && c <= '\u{200a}')
    ||| c == '\u{2028}'
    ||| c == '\u{2029}'
    ||| c == '\u{202f}'
    ||| c == '\u{205f}'
    ||| c == '\u{3000}'
}

/// Executable test for the Unicode `White_Space` property.
pub fn is_whitespace(c: char) -> (r: bool)
    ensures
        r == is_ws(c),
{
    ('\u{9}' <= c && c <= '\u{d}') || c == ' ' || c == '\u{85}' || c == '\u{a0}' || c
        == '\u{1680}' || ('\u{2000}' <= c && c <= '\u{200a}') || c == '\u{2028}' || c
        == '\u{2029}' || c == '\u{202f}' || c == '\u{205f}' || c == '\u{3000}'
}

/// The classes of characters that are trimmed from the ends of a text.
#[derive(Clone, Copy, PartialEq, Eq, Debug)]
pub enum CharClass {
    Whitespace,
    Slash,
}

pub open spec fn in_class(c: char, class: CharClass) -> bool {
    match class {
        CharClass::Whitespace => is_ws(c),
        CharClass::Slash => c == '/',
    }
}

/// `s` without its leading characters of `class`.
pub open spec fn trim_start_class(s: Seq<char>, class: CharClass) -> Seq<char>
    decreases s.len(),
{
    if s.len() > 0 && in_class(s[0], class) {
        trim_start_class(s.drop_first(), class)
    } else {
        s
    }
}

/// `s` without its trailing characters of `class`.
pub open spec fn trim_end_class(s: Seq<char>, class: CharClass) -> Seq<char>
    decreases s.len(),
{
    if s.len() > 0 && in_class(s.last(), class) {
        trim_end_class(s.drop_last(), class)
    } else {
        s
    }
}

/// `s` without its leading and trailing characters of `class`.
pub open spec fn trim_class(s: Seq<char>, class: CharClass) -> Seq<char> {
    trim_end_class(trim_start_class(s, class), class)
}

/// `s` without leading and trailing whitespace (`str::trim`).
pub open spec fn trim(s: Seq<char>) -> Seq<char> {
    trim_class(s, CharClass::Whitespace)
}

/// Whether some character of `s` is whitespace.
pub open spec fn has_ws(s: Seq<char>) -> bool {
    exists|i: int| 0 <= i < s.len() && is_ws(#[trigger] s[i])
}

/// The text `.git`.
pub open spec fn git_suffix() -> Seq<char> {
    seq!['.', 'g', 'i', 't']
}

/// `s` with every trailing repetition of `.git` removed
/// (`str::trim_end_matches(".git")`).
pub open spec fn strip_git_suffixes(s: Seq<char>) -> Seq<char>
    decreases s.len(),
{
    if git_suffix().is_suffix_of(s) {
        strip_git_suffixes(s.take(s.len() - 4))
    } else {
        s
    }
}

/// The parts of `s` before and after the first `c` (`str::split_once`).
pub open spec fn split_once(s: Seq<char>, c: char) -> Option<(Seq<char>, Seq<char>)> {
    match s.index_of_first(c) {
        Some(i) => Some((s.take(i), s.skip(i + 1))),
        None => None,
    }
}

/// The parts of `s` before and after the last `c` (`str::rsplit_once`).
pub open spec fn rsplit_once(s: Seq<char>, c: char) -> Option<(Seq<char>, Seq<char>)> {
    match s.index_of_last(c) {
        Some(i) => Some((s.take(i), s.skip(i + 1))),
        None => None,
    }
}

// ---------------------------------------------------------------------------
// Lemmas
// ---------------------------------------------------------------------------

/// A text that neither starts nor ends with a character of `class` is its own trim.
pub proof fn lemma_trim_class_fixed(s: Seq<char>, class: CharClass)
    requires
        s.len() == 0 || (!in_class(s[0], class) && !in_class(s.last(), class)),
    ensures
        trim_class(s, class) == s,
{
}

/// Trimming the start leaves a suffix of the text.
pub proof fn lemma_trim_start_suffix(s: Seq<char>, class: CharClass)
    ensures
        trim_start_class(s, class).is_suffix_of(s),
        trim_start_class(s, class).len() > 0 ==> !in_class(trim_start_class(s, class)[0], class),
    decreases s.len(),
{
    if s.len() > 0 && in_class(s[0], class) {
        lemma_trim_start_suffix(s.drop_first(), class);
        let t = trim_start_class(s.drop_first(), class);
        assert(t =~= s.subrange(s.len() - t.len(), s.len() as int));
    } else {
        assert(s =~= s.subrange(0, s.len() as int));
    }
}

/// Trimming the end leaves a prefix of the text.
pub proof fn lemma_trim_end_prefix(s: Seq<char>, class: CharClass)
    ensures
        trim_end_class(s, class).is_prefix_of(s),
        trim_end_class(s, class).len() > 0 ==> !in_class(trim_end_class(s, class).last(), class),
    decreases s.len(),
{
    if s.len() > 0 && in_class(s.last(), class) {
        lemma_trim_end_prefix(s.drop_last(), class);
        let t = trim_end_class(s.drop_last(), class);
        assert(t =~= s.subrange(0, t.len() as int));
    } else {
        assert(s =~= s.subrange(0, s.len() as int));
    }
}

/// Trimming removes only characters of `class` from the ends, so the result is a
/// contiguous piece of the text that neither starts nor ends with `class`.
pub proof fn lemma_trim_class_piece(s: Seq<char>, class: CharClass)
    ensures
        exists|a: int, b: int|
            0 <= a <= b <= s.len() && #[trigger] s.subrange(a, b) == trim_class(s, class),
        trim_class(s, class).len() > 0 ==> !in_class(trim_class(s, class)[0], class) && !in_class(
            trim_class(s, class).last(),
            class,
        ),
{
    let t = trim_start_class(s, class);
    lemma_trim_start_suffix(s, class);
    lemma_trim_end_prefix(t, class);
    let u = trim_end_class(t, class);
    let a = s.len() - t.len();
    assert(t =~= s.subrange(a, s.len() as int));
    assert(u =~= s.subrange(a, a + u.len()));
    if u.len() > 0 {
        assert(u[0] == t[0]);
    }
}

/// Every character of a trimmed text is a character of the text.
pub proof fn lemma_trim_class_chars(s: Seq<char>, class: CharClass, i: int)
    requires
        0 <= i < trim_class(s, class).len(),
    ensures
        exists|j: int| 0 <= j < s.len() && s[j] == trim_class(s, class)[i],
{
    lemma_trim_class_piece(s, class);
    let (a, b) = choose|a: int, b: int|
        0 <= a <= b <= s.len() && #[trigger] s.subrange(a, b) == trim_class(s, class);
    assert(s[a + i] == trim_class(s, class)[i]);
}

/// Trimming twice is trimming once.
pub proof fn lemma_trim_idempotent(s: Seq<char>)
    ensures
        trim(trim(s)) == trim(s),
{
    lemma_trim_class_piece(s, CharClass::Whitespace);
    lemma_trim_class_fixed(trim(s), CharClass::Whitespace);
}

/// The first occurrence of `c` in a text made of a `c`-free part, `c` and a rest.
pub proof fn lemma_index_of_first_concat(a: Seq<char>, c: char, b: Seq<char>)
    requires
        !a.contains(c),
    ensures
        (a + seq![c] + b).index_of_first(c) == Some(a.len() as int),
        split_once(a + seq![c] + b, c) == Some((a, b)),
{
    let s = a + seq![c] + b;
    s.index_of_first_ensures(c);
    assert(s[a.len() as int] == c);
    let k = s.index_of_first(c).unwrap();
    if k < a.len() {
        assert(a[k] == c);
    }
    assert(s.take(a.len() as int) =~= a);
    assert(s.skip(a.len() as int + 1) =~= b);
}

/// A text without `c` has no first occurrence of `c`.
pub proof fn lemma_split_once_none(s: Seq<char>, c: char)
    requires
        !s.contains(c),
    ensures
        s.index_of_first(c) is None,
        split_once(s, c) is None,
{
    s.index_of_first_ensures(c);
}

/// A text without `c` has no last occurrence of `c`.
pub proof fn lemma_rsplit_once_none(s: Seq<char>, c: char)
    requires
        !s.contains(c),
    ensures
        s.index_of_last(c) is None,
        rsplit_once(s, c) is None,
{
    s.index_of_last_ensures(c);
}

/// Appending `.git` to a text that does not end with it is undone by
/// stripping the `.git` suffixes.
pub proof fn lemma_strip_git_appended(n: Seq<char>)
    requires
        !git_suffix().is_suffix_of(n),
    ensures
        strip_git_suffixes(n + git_suffix()) == n,
{
    let s = n + git_suffix();
    assert(git_suffix() =~= s.subrange(s.len() - 4, s.len() as int));
    assert(s.take(s.len() - 4) =~= n);
    assert(strip_git_suffixes(n) == n);
    assert(strip_git_suffixes(s) == strip_git_suffixes(s.take(s.len() - 4)));
}

// ---------------------------------------------------------------------------
// Executable operations on index ranges of a character vector
// ---------------------------------------------------------------------------

/// The characters of `s`, in order.
pub fn chars_of(s: &str) -> (v: Vec<char>)
    ensures
        v@ == s@,
{
    let n = s.unicode_len();
    let mut v: Vec<char> = Vec::new();
    let mut i: usize = 0;
    while i < n
        invariant
            n == s@.len(),
            i <= n,
            v@ == s@.take(i as int),
        decreases n - i,
    {
        let c = s.get_char(i);
        v.push(c);
        i = i + 1;
        assert(v@ =~= s@.take(i as int));
    }
    assert(v@ =~= s@);
    v
}

/// Whether the character belongs to `class`.
pub fn char_in_class(c: char, class: CharClass) -> (r: bool)
    ensures
        r == in_class(c, class),
{
    match class {
        CharClass::Whitespace => is_whitespace(c),
        CharClass::Slash => c == '/',
    }
}

/// The start of the range `lo..hi` of `v` once its leading characters of
/// `class` are skipped.
pub fn trim_start_range(v: &Vec<char>, lo: usize, hi: usize, class: CharClass) -> (a: usize)
    requires
        lo <= hi <= v@.len(),
    ensures
        lo <= a <= hi,
        v@.subrange(a as int, hi as int) == trim_start_class(v@.subrange(lo as int, hi as int), class),
{
    let mut a = lo;
    while a < hi && char_in_class(v[a], class)
        invariant
            lo <= a <= hi <= v@.len(),
            trim_start_class(v@.subrange(a as int, hi as int), class) == trim_start_class(
                v@.subrange(lo as int, hi as int),
                class,
            ),
        decreases hi - a,
    {
        let ghost s = v@.subrange(a as int, hi as int);
        assert(s.drop_first() =~= v@.subrange(a + 1, hi as int));
        a = a + 1;
    }
    a
}

/// The end of the range `lo..hi` of `v` once its trailing characters of
/// `class` are dropped.
pub fn trim_end_range(v: &Vec<char>, lo: usize, hi: usize, class: CharClass) -> (b: usize)
    requires
        lo <= hi <= v@.len(),
    ensures
        lo <= b <= hi,
        v@.subrange(lo as int, b as int) == trim_end_class(v@.subrange(lo as int, hi as int), class),
{
    let mut b = hi;
    while b > lo && char_in_class(v[b - 1], class)
        invariant
            lo <= b <= hi <= v@.len(),
            trim_end_class(v@.subrange(lo as int, b as int), class) == trim_end_class(
                v@.subrange(lo as int, hi as int),
                class,
            ),
        decreases b - lo,
    {
        let ghost s = v@.subrange(lo as int, b as int);
        assert(s.drop_last() =~= v@.subrange(lo as int, b - 1));
        b = b - 1;
    }
    b
}

/// The range `lo..hi` of `v` without its leading and trailing characters of `class`.
pub fn trim_range(v: &Vec<char>, lo: usize, hi: usize, class: CharClass) -> (r: (usize, usize))
    requires
        lo <= hi <= v@.len(),
    ensures
        lo <= r.0 <= r.1 <= hi,
        v@.subrange(r.0 as int, r.1 as int) == trim_class(v@.subrange(lo as int, hi as int), class),
{
    let a = trim_start_range(v, lo, hi, class);
    let b = trim_end_range(v, a, hi, class);
    (a, b)
}

/// The position of the first `c` in the range `lo..hi` of `v`.
pub fn find_first(v: &Vec<char>, lo: usize, hi: usize, c: char) -> (r: Option<usize>)
    requires
        lo <= hi <= v@.len(),
    ensures
        match r {
            Some(k) => lo <= k < hi && v@[k as int] == c && v@.subrange(lo as int, hi as int).index_of_first(
                c,
            ) == Some(k - lo),
            None => v@.subrange(lo as int, hi as int).index_of_first(c) is None,
        },
{
    let ghost s = v@.subrange(lo as int, hi as int);
    let mut i = lo;
    while i < hi
        invariant
            lo <= i <= hi <= v@.len(),
            s == v@.subrange(lo as int, hi as int),
            forall|j: int| 0 <= j < i - lo ==> s[j] != c,
        decreases hi - i,
    {
        if v[i] == c {
            proof {
                s.index_of_first_ensures(c);
                assert(s[i - lo] == c);
                let k = s.index_of_first(c).unwrap();
                assert(k == i - lo);
            }
            return Some(i);
        }
        i = i + 1;
    }
    proof {
        s.index_of_first_ensures(c);
    }
    None
}

/// The position of the last `c` in the range `lo..hi` of `v`.
pub fn find_last(v: &Vec<char>, lo: usize, hi: usize, c: char) -> (r: Option<usize>)
    requires
        lo <= hi <= v@.len(),
    ensures
        match r {
            Some(k) => lo <= k < hi && v@[k as int] == c && v@.subrange(lo as int, hi as int).index_of_last(
                c,
            ) == Some(k - lo),
            None => v@.subrange(lo as int, hi as int).index_of_last(c) is None,
        },
{
    let ghost s = v@.subrange(lo as int, hi as int);
    let mut i = hi;
    while i > lo
        invariant
            lo <= i <= hi <= v@.len(),
            s == v@.subrange(lo as int, hi as int),
            forall|j: int| i - lo <= j < s.len() ==> s[j] != c,
        decreases i - lo,
    {
        if v[i - 1] == c {
            proof {
                s.index_of_last_ensures(c);
                assert(s[i - 1 - lo] == c);
                let k = s.index_of_last(c).unwrap();
                assert(k == i - 1 - lo);
            }
            return Some(i - 1);
        }
        i = i - 1;
    }
    proof {
        s.index_of_last_ensures(c);
    }
    None
}

/// Whether the range `lo..hi` of `v` starts with `p`.
pub fn starts_with_range(v: &Vec<char>, lo: usize, hi: usize, p: &[char]) -> (r: bool)
    requires
        lo <= hi <= v@.len(),
    ensures
        r == p@.is_prefix_of(v@.subrange(lo as int, hi as int)),
{
    let ghost s = v@.subrange(lo as int, hi as int);
    if p.len() > hi - lo {
        return false;
    }
    let mut k: usize = 0;
    while k < p.len()
        invariant
            k <= p@.len() <= hi - lo,
            lo <= hi <= v@.len(),
            s == v@.subrange(lo as int, hi as int),
            forall|j: int| 0 <= j < k ==> p@[j] == s[j],
        decreases p@.len() - k,
    {
        if v[lo + k] != p[k] {
            assert(p@[k as int] != s[k as int]);
            return false;
        }
        k = k + 1;
    }
    assert(p@ =~= s.subrange(0, p@.len() as int));
    true
}

/// The end of the range `lo..hi` of `v` once every trailing `.git` is removed.
pub fn strip_git_range(v: &Vec<char>, lo: usize, hi: usize) -> (b: usize)
    requires
        lo <= hi <= v@.len(),
    ensures
        lo <= b <= hi,
        v@.subrange(lo as int, b as int) == strip_git_suffixes(v@.subrange(lo as int, hi as int)),
{
    let mut b = hi;
    loop
        invariant
            lo <= b <= hi <= v@.len(),
            strip_git_suffixes(v@.subrange(lo as int, b as int)) == strip_git_suffixes(
                v@.subrange(lo as int, hi as int),
            ),
        decreases b - lo,
    {
        let ghost s = v@.subrange(lo as int, b as int);
        if b - lo >= 4 && v[b - 4] == '.' && v[b - 3] == 'g' && v[b - 2] == 'i' && v[b - 1] == 't' {
            assert(git_suffix() =~= s.subrange(s.len() - 4, s.len() as int));
            assert(s.take(s.len() - 4) =~= v@.subrange(lo as int, b - 4));
            b = b - 4;
        } else {
            assert(!git_suffix().is_suffix_of(s)) by {
                if git_suffix().is_suffix_of(s) {
                    assert(s.subrange(s.len() - 4, s.len() as int)[0] == '.');
                    assert(s.subrange(s.len() - 4, s.len() as int)[1] == 'g');
                    assert(s.subrange(s.len() - 4, s.len() as int)[2] == 'i');
                    assert(s.subrange(s.len() - 4, s.len() as int)[3] == 't');
                }
            }
            return b;
        }
    }
}

/// Whether the range `lo..hi` of `v` holds a whitespace character.
pub fn has_ws_range(v: &Vec<char>, lo: usize, hi: usize) -> (r: bool)
    requires
        lo <= hi <= v@.len(),
    ensures
        r == has_ws(v@.subrange(lo as int, hi as int)),
{
    let ghost s = v@.subrange(lo as int, hi as int);
    let mut i = lo;
    while i < hi
        invariant
            lo <= i <= hi <= v@.len(),
            s == v@.subrange(lo as int, hi as int),
            forall|j: int| 0 <= j < i - lo ==> !is_ws(s[j]),
        decreases hi - i,
    {
        if is_whitespace(v[i]) {
            assert(is_ws(s[i - lo]));
            return true;
        }
        i = i + 1;
    }
    false
}

/// Whether two texts hold the same characters.
pub fn text_equals(s: &str, t: &str) -> (r: bool)
    ensures
        r == (s@ == t@),
{
    let n = s.unicode_len();
    let m = t.unicode_len();
    if n != m {
        return false;
    }
    let mut i: usize = 0;
    while i < n
        invariant
            n == s@.len(),
            m == t@.len(),
            n == m,
            i <= n,
            forall|j: int| 0 <= j < i ==> s@[j] == t@[j],
        decreases n - i,
    {
        if s.get_char(i) != t.get_char(i) {
            return false;
        }
        i = i + 1;
    }
    assert(s@ =~= t@);
    true
}

} // verus!
