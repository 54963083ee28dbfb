//! Character-level text primitives shared by the whole library.
//!
//! Strings are handled as `Vec<char>` inside the library; every operation
//! here is stated over `Seq<char>` views.
use vstd::prelude::*;

verus! {

// ---------------------------------------------------------------------------
// Character classes
// ---------------------------------------------------------------------------

/// Unicode `White_Space`, the property behind `char::is_whitespace`,
/// `str::trim`, `str::split_whitespace` and the regex class `\s`.
pub open spec fn is_ws(c: char) -> bool {
    let u = c as u32;
    ||| 0x09 <= u <= 0x0d
    ||| u == 0x20
    ||| u == 0x85
    ||| u == 0xa0
    ||| u == 0x1680
    ||| 0x2000 <= u <= 0x200a
    ||| u == 0x2028
    ||| u == 0x2029
    ||| u == 0x202f
    ||| u == 0x205f
    ||| u == 0x3000
}

pub open spec fn is_ascii_digit(c: char) -> bool {
    '0' <= c <= '9'
}

pub open spec fn is_ascii_upper(c: char) -> bool {
    'A' <= c <= 'Z'
}

pub open spec fn is_ascii_lower(c: char) -> bool {
    'a' <= c <= 'z'
}

/// `char::to_ascii_lowercase`.
pub open spec fn ascii_lower(c: char) -> char {
    if is_ascii_upper(c) {
        ((c as u32) + 32) as char
    } else {
        c
    }
}

/// `char::to_ascii_uppercase`.
pub open spec fn ascii_upper(c: char) -> char {
    if is_ascii_lower(c) {
        ((c as u32) - 32) as char
    } else {
        c
    }
}

pub fn is_whitespace(c: char) -> (b: bool)
    ensures
        b == is_ws(c),
{
    let u = c as u32;
    (0x09 <= u && u <= 0x0d) || u == 0x20 || u == 0x85 || u == 0xa0 || u == 0x1680 || (0x2000
        <= u && u <= 0x200a) || u == 0x2028 || u == 0x2029 || u == 0x202f || u == 0x205f || u
        == 0x3000
}

pub fn is_digit(c: char) -> (b: bool)
    ensures
        b == is_ascii_digit(c),
{
    '0' <= c && c <= '9'
}

pub fn to_ascii_lower(c: char) -> (r: char)
    ensures
        r == ascii_lower(c),
{
    if 'A' <= c && c <= 'Z' {
        let b = c as u8;
        (b + 32) as char
    } else {
        c
    }
}

pub fn to_ascii_upper(c: char) -> (r: char)
    ensures
        r == ascii_upper(c),
{
    if 'a' <= c && c <= 'z' {
        let b = c as u8;
        (b - 32) as char
    } else {
        c
    }
}


/// Whether `char::is_alphabetic` holds of a character (Unicode `Alphabetic`).
pub uninterp spec fn alphabetic(c: char) -> bool;

/// Calls `char::is_alphabetic`; the result is named `alphabetic`.
#[verifier::external_body]
pub(crate) fn is_alphabetic(c: char) -> (b: bool)
    ensures
        b == alphabetic(c),
{
    c.is_alphabetic()
}

/// A class of characters that trimming and scanning operations test against.
#[derive(Clone, Copy)]
pub enum CharClass {
    Whitespace,
    NotWhitespace,
    NotAlphabetic,
    NotAsciiDigit,
    Exactly(char),
    /// `-`, `:`, `[`, `]`, `(`, `)`, `_` or whitespace.
    TitleEdge,
}

pub open spec fn in_class(k: CharClass, c: char) -> bool {
    match k {
        CharClass::Whitespace => is_ws(c),
        CharClass::NotWhitespace => !is_ws(c),
        CharClass::NotAlphabetic => !alphabetic(c),
        CharClass::NotAsciiDigit => !is_ascii_digit(c),
        CharClass::Exactly(x) => c == x,
        CharClass::TitleEdge => c == '-' || c == ':' || c == '[' || c == ']' || c == '(' || c
            == ')' || c == '_' || is_ws(c),
    }
}

pub fn class_has(k: CharClass, c: char) -> (b: bool)
    ensures
        b == in_class(k, c),
{
    match k {
        CharClass::Whitespace => is_whitespace(c),
        CharClass::NotWhitespace => !is_whitespace(c),
        CharClass::NotAlphabetic => !is_alphabetic(c),
        CharClass::NotAsciiDigit => !is_digit(c),
        CharClass::Exactly(x) => c == x,
        CharClass::TitleEdge => c == '-' || c == ':' || c == '[' || c == ']' || c == '(' || c
            == ')' || c == '_' || is_whitespace(c),
    }
}

// ---------------------------------------------------------------------------
// Trimming
// ---------------------------------------------------------------------------

/// Number of leading characters of `s` in class `k`.
pub open spec fn leading(s: Seq<char>, k: CharClass) -> nat
    decreases s.len(),
{
    if s.len() > 0 && in_class(k, s[0]) {
        1 + leading(s.drop_first(), k)
    } else {
        0
    }
}

/// Number of trailing characters of `s` in class `k`.
pub open spec fn trailing(s: Seq<char>, k: CharClass) -> nat
    decreases s.len(),
{
    if s.len() > 0 && in_class(k, s.last()) {
        1 + trailing(s.drop_last(), k)
    } else {
        0
    }
}

/// `trim_start_matches` with a character class.
pub open spec fn strip_start(s: Seq<char>, k: CharClass) -> Seq<char> {
    s.skip(leading(s, k) as int)
}

/// `trim_end_matches` with a character class.
pub open spec fn strip_end(s: Seq<char>, k: CharClass) -> Seq<char> {
    s.take(s.len() - trailing(s, k))
}

/// `trim_matches` with a character class.
pub open spec fn strip(s: Seq<char>, k: CharClass) -> Seq<char> {
    strip_end(strip_start(s, k), k)
}

/// `str::trim`.
pub open spec fn trim(s: Seq<char>) -> Seq<char> {
    strip(s, CharClass::Whitespace)
}

pub proof fn lemma_leading(s: Seq<char>, k: CharClass)
    ensures
        leading(s, k) <= s.len(),
        forall|j: int| 0 <= j < leading(s, k) ==> in_class(k, #[trigger] s[j]),
        leading(s, k) < s.len() ==> !in_class(k, s[leading(s, k) as int]),
    decreases s.len(),
{
    if s.len() > 0 && in_class(k, s[0]) {
        lemma_leading(s.drop_first(), k);
        assert forall|j: int| 0 <= j < leading(s, k) implies in_class(k, #[trigger] s[j]) by {
            if j > 0 {
                assert(s[j] == s.drop_first()[j - 1]);
            }
        }
    }
}

pub proof fn lemma_trailing(s: Seq<char>, k: CharClass)
    ensures
        trailing(s, k) <= s.len(),
        forall|j: int| s.len() - trailing(s, k) <= j < s.len() ==> in_class(k, #[trigger] s[j]),
        trailing(s, k) < s.len() ==> !in_class(k, s[s.len() - 1 - trailing(s, k)]),
    decreases s.len(),
{
    if s.len() > 0 && in_class(k, s.last()) {
        lemma_trailing(s.drop_last(), k);
        assert forall|j: int| s.len() - trailing(s, k) <= j < s.len() implies in_class(
            k,
            #[trigger] s[j],
        ) by {
            if j < s.len() - 1 {
                assert(s[j] == s.drop_last()[j]);
            }
        }
    }
}

/// A string with no whitespace at either end is its own trim.
pub proof fn lemma_trim_fixed(t: Seq<char>)
    requires
        t.len() > 0 ==> !is_ws(t[0]) && !is_ws(t.last()),
    ensures
        trim(t) == t,
{
    let ws = CharClass::Whitespace;
    if t.len() > 0 {
        lemma_leading_at(t, ws, 0);
        assert(t.skip(0) =~= t);
        lemma_trailing_at(t, ws, 0);
        assert(t.take(t.len() as int) =~= t);
    } else {
        lemma_leading(t, ws);
        lemma_trailing(t.skip(leading(t, ws) as int), ws);
        assert(trim(t) =~= t);
    }
}

/// Trimming twice trims no more than once.
pub proof fn lemma_trim_twice(s: Seq<char>)
    ensures
        trim(trim(s)) == trim(s),
{
    let ws = CharClass::Whitespace;
    lemma_leading(s, ws);
    let u = strip_start(s, ws);
    lemma_trailing(u, ws);
    let t = trim(s);
    if t.len() > 0 {
        assert(t[0] == u[0]);
        assert(u[0] == s[leading(s, ws) as int]);
        assert(t.last() == u[u.len() - 1 - trailing(u, ws)]);
    }
    lemma_trim_fixed(t);
}

/// The leading count is the unique position that ends a run of class members.
pub proof fn lemma_leading_at(s: Seq<char>, k: CharClass, i: int)
    requires
        0 <= i <= s.len(),
        forall|j: int| 0 <= j < i ==> in_class(k, #[trigger] s[j]),
        i == s.len() || !in_class(k, s[i]),
    ensures
        leading(s, k) == i,
{
    lemma_leading(s, k);
    if leading(s, k) < i {
        assert(in_class(k, s[leading(s, k) as int]));
    }
    if leading(s, k) > i {
        assert(in_class(k, s[i]));
    }
}

pub proof fn lemma_trailing_at(s: Seq<char>, k: CharClass, n: int)
    requires
        0 <= n <= s.len(),
        forall|j: int| s.len() - n <= j < s.len() ==> in_class(k, #[trigger] s[j]),
        n == s.len() || !in_class(k, s[s.len() - 1 - n]),
    ensures
        trailing(s, k) == n,
{
    lemma_trailing(s, k);
    if trailing(s, k) < n {
        assert(in_class(k, s[s.len() - 1 - trailing(s, k)]));
    }
    if trailing(s, k) > n {
        assert(in_class(k, s[s.len() - 1 - n]));
    }
}

pub fn leading_count(s: &[char], k: CharClass) -> (n: usize)
    ensures
        n == leading(s@, k),
{
    let mut i: usize = 0;
    while i < s.len() && class_has(k, s[i])
        invariant
            i <= s@.len(),
            forall|j: int| 0 <= j < i ==> in_class(k, #[trigger] s@[j]),
        decreases s@.len() - i,
    {
        i = i + 1;
    }
    proof {
        lemma_leading_at(s@, k, i as int);
    }
    i
}

pub fn trailing_count(s: &[char], k: CharClass) -> (n: usize)
    ensures
        n == trailing(s@, k),
{
    let mut n: usize = 0;
    while n < s.len() && class_has(k, s[s.len() - 1 - n])
        invariant
            n <= s@.len(),
            forall|j: int| s@.len() - n <= j < s@.len() ==> in_class(k, #[trigger] s@[j]),
        decreases s@.len() - n,
    {
        n = n + 1;
    }
    proof {
        lemma_trailing_at(s@, k, n as int);
    }
    n
}

/// A copy of `s[a..b]`.
pub fn subslice(s: &[char], a: usize, b: usize) -> (v: Vec<char>)
    requires
        a <= b <= s@.len(),
    ensures
        v@ == s@.subrange(a as int, b as int),
{
    let mut v: Vec<char> = Vec::new();
    let mut i = a;
    while i < b
        invariant
            a <= i <= b <= s@.len(),
            v@ == s@.subrange(a as int, i as int),
        decreases b - i,
    {
        v.push(s[i]);
        i = i + 1;
    }
    v
}

pub fn strip_start_of(s: &[char], k: CharClass) -> (v: Vec<char>)
    ensures
        v@ == strip_start(s@, k),
{
    let n = leading_count(s, k);
    proof {
        lemma_leading(s@, k);
    }
    subslice(s, n, s.len())
}

pub fn strip_end_of(s: &[char], k: CharClass) -> (v: Vec<char>)
    ensures
        v@ == strip_end(s@, k),
{
    let n = trailing_count(s, k);
    proof {
        lemma_trailing(s@, k);
    }
    subslice(s, 0, s.len() - n)
}

pub fn strip_of(s: &[char], k: CharClass) -> (v: Vec<char>)
    ensures
        v@ == strip(s@, k),
{
    let a = strip_start_of(s, k);
    strip_end_of(a.as_slice(), k)
}

pub fn trim_of(s: &[char]) -> (v: Vec<char>)
    ensures
        v@ == trim(s@),
{
    strip_of(s, CharClass::Whitespace)
}


// ---------------------------------------------------------------------------
// Searching
// ---------------------------------------------------------------------------

/// `pat` occurs in `s` starting at index `i`.
pub open spec fn occurs_at(s: Seq<char>, pat: Seq<char>, i: int) -> bool {
    0 <= i && i + pat.len() <= s.len() && s.subrange(i, i + pat.len()) == pat
}

/// `str::contains` with a string pattern.
pub open spec fn contains(s: Seq<char>, pat: Seq<char>) -> bool {
    exists|i: int| occurs_at(s, pat, i)
}

/// `str::starts_with`.
pub open spec fn starts_with(s: Seq<char>, pat: Seq<char>) -> bool {
    occurs_at(s, pat, 0)
}

/// `str::ends_with`.
pub open spec fn ends_with(s: Seq<char>, pat: Seq<char>) -> bool {
    occurs_at(s, pat, s.len() - pat.len())
}

/// The character `c` does not occur in `s`.
pub open spec fn lacks(s: Seq<char>, c: char) -> bool
    decreases s.len(),
{
    s.len() == 0 || (s.last() != c && lacks(s.drop_last(), c))
}

pub proof fn lemma_lacks(s: Seq<char>, c: char)
    requires
        lacks(s, c),
    ensures
        forall|k: int| 0 <= k < s.len() ==> s[k] != c,
    decreases s.len(),
{
    if s.len() > 0 {
        lemma_lacks(s.drop_last(), c);
        assert forall|k: int| 0 <= k < s.len() implies s[k] != c by {
            if k < s.len() - 1 {
                assert(s[k] == s.drop_last()[k]);
            }
        }
    }
}

/// A pattern does not occur where its first character does not.
pub proof fn lemma_lacks_pattern(s: Seq<char>, pat: Seq<char>)
    requires
        pat.len() > 0,
        lacks(s, pat[0]),
    ensures
        !contains(s, pat),
{
    lemma_lacks(s, pat[0]);
    assert forall|i: int| !occurs_at(s, pat, i) by {
        if occurs_at(s, pat, i) {
            assert(s.subrange(i, i + pat.len())[0] == s[i]);
        }
    }
}

/// A pattern occurs in a string that starts with it.
pub proof fn lemma_prefix_occurs(s: Seq<char>, pat: Seq<char>)
    requires
        pat.len() <= s.len(),
        s.subrange(0, pat.len() as int) == pat,
    ensures
        contains(s, pat),
{
    assert(occurs_at(s, pat, 0));
}

/// The first index at or after `i` where `pat` occurs.
pub open spec fn find_from(s: Seq<char>, pat: Seq<char>, i: int) -> Option<int>
    decreases s.len() + 1 - i,
{
    if i < 0 || i + pat.len() > s.len() {
        None
    } else if occurs_at(s, pat, i) {
        Some(i)
    } else {
        find_from(s, pat, i + 1)
    }
}

/// `str::find` with a string pattern, as a character index.
pub open spec fn find(s: Seq<char>, pat: Seq<char>) -> Option<int> {
    find_from(s, pat, 0)
}

pub proof fn lemma_find_from(s: Seq<char>, pat: Seq<char>, i: int)
    requires
        0 <= i,
    ensures
        find_from(s, pat, i) matches Some(j) ==> i <= j && occurs_at(s, pat, j) && forall|m: int|
            i <= m < j ==> !occurs_at(s, pat, m),
        find_from(s, pat, i) is None ==> forall|m: int| i <= m ==> !occurs_at(s, pat, m),
    decreases s.len() + 1 - i,
{
    if i + pat.len() <= s.len() && !occurs_at(s, pat, i) {
        lemma_find_from(s, pat, i + 1);
        assert forall|m: int| i <= m && !(i + 1 <= m) implies !occurs_at(s, pat, m) by {}
    }
}

/// `find` gives the first occurrence, and none exactly when there is no occurrence.
pub proof fn lemma_find(s: Seq<char>, pat: Seq<char>)
    ensures
        find(s, pat) matches Some(j) ==> occurs_at(s, pat, j) && forall|m: int|
            0 <= m < j ==> !occurs_at(s, pat, m),
        find(s, pat) is None <==> !contains(s, pat),
{
    lemma_find_from(s, pat, 0);
    if find(s, pat) is None {
        assert forall|m: int| !occurs_at(s, pat, m) by {
            if 0 <= m {
            }
        }
    }
}

/// Whether `pat` occurs at `i`; `false` outside bounds.
pub fn matches_at(s: &[char], pat: &[char], i: usize) -> (b: bool)
    ensures
        b == occurs_at(s@, pat@, i as int),
{
    if i > s.len() || pat.len() > s.len() - i {
        return false;
    }
    let mut j: usize = 0;
    while j < pat.len()
        invariant
            i + pat@.len() <= s@.len(),
            s@.len() <= usize::MAX,
            j <= pat@.len(),
            forall|m: int| 0 <= m < j ==> s@[i + m] == pat@[m],
        decreases pat@.len() - j,
    {
        if s[i + j] != pat[j] {
            proof {
                assert(s@.subrange(i as int, i + pat@.len())[j as int] != pat@[j as int]);
            }
            return false;
        }
        j = j + 1;
    }
    assert(s@.subrange(i as int, i + pat@.len()) =~= pat@);
    true
}

pub fn find_in(s: &[char], pat: &[char]) -> (r: Option<usize>)
    ensures
        r matches Some(i) ==> find(s@, pat@) == Some(i as int),
        r is None ==> find(s@, pat@) is None,
{
    if pat.len() > s.len() {
        return None;
    }
    let last = s.len() - pat.len();
    let mut i: usize = 0;
    loop
        invariant
            last + pat@.len() == s@.len(),
            i <= last,
            find_from(s@, pat@, 0) == find_from(s@, pat@, i as int),
        decreases last - i,
    {
        if matches_at(s, pat, i) {
            return Some(i);
        }
        if i == last {
            assert(find_from(s@, pat@, i + 1) is None);
            return None;
        }
        i = i + 1;
    }
}

pub fn contains_in(s: &[char], pat: &[char]) -> (b: bool)
    ensures
        b == contains(s@, pat@),
{
    proof {
        lemma_find(s@, pat@);
    }
    find_in(s, pat).is_some()
}

pub fn starts_with_in(s: &[char], pat: &[char]) -> (b: bool)
    ensures
        b == starts_with(s@, pat@),
{
    matches_at(s, pat, 0)
}

pub fn ends_with_in(s: &[char], pat: &[char]) -> (b: bool)
    ensures
        b == ends_with(s@, pat@),
{
    if pat.len() > s.len() {
        return false;
    }
    matches_at(s, pat, s.len() - pat.len())
}

/// Equality of two character sequences.
pub fn same(a: &[char], b: &[char]) -> (r: bool)
    ensures
        r == (a@ == b@),
{
    if a.len() != b.len() {
        return false;
    }
    let r = matches_at(a, b, 0);
    assert(a@.subrange(0, b@.len() as int) =~= a@);
    r
}

/// `str::eq_ignore_ascii_case`.
pub open spec fn eq_ascii_ci(a: Seq<char>, b: Seq<char>) -> bool {
    a.len() == b.len() && forall|i: int| 0 <= i < a.len() ==> ascii_lower(a[i]) == ascii_lower(b[i])
}

pub fn eq_ignore_ascii_case(a: &[char], b: &[char]) -> (r: bool)
    ensures
        r == eq_ascii_ci(a@, b@),
{
    if a.len() != b.len() {
        return false;
    }
    let mut i: usize = 0;
    while i < a.len()
        invariant
            a@.len() == b@.len(),
            i <= a@.len(),
            forall|m: int| 0 <= m < i ==> ascii_lower(a@[m]) == ascii_lower(b@[m]),
        decreases a@.len() - i,
    {
        if to_ascii_lower(a[i]) != to_ascii_lower(b[i]) {
            return false;
        }
        i = i + 1;
    }
    true
}


// ---------------------------------------------------------------------------
// Words
// ---------------------------------------------------------------------------

/// `str::split_whitespace`: the maximal runs of non-whitespace characters.
pub open spec fn words(s: Seq<char>) -> Seq<Seq<char>>
    decreases s.len(),
{
    let t = strip_start(s, CharClass::Whitespace);
    if t.len() == 0 {
        seq![]
    } else {
        let n = leading(t, CharClass::NotWhitespace);
        proof {
            lemma_leading(s, CharClass::Whitespace);
            assert(in_class(CharClass::NotWhitespace, t[0]));
            lemma_leading(t, CharClass::NotWhitespace);
        }
        seq![t.take(n as int)] + words(t.skip(n as int))
    }
}

/// The views of a sequence of character vectors.
pub open spec fn views(v: Seq<Vec<char>>) -> Seq<Seq<char>> {
    v.map_values(|w: Vec<char>| w@)
}

/// `slice::join` on strings: the words with `sep` between neighbours.
pub open spec fn join(ws: Seq<Seq<char>>, sep: Seq<char>) -> Seq<char>
    decreases ws.len(),
{
    if ws.len() == 0 {
        seq![]
    } else if ws.len() == 1 {
        ws[0]
    } else {
        join(ws.drop_last(), sep) + sep + ws.last()
    }
}

/// A word as `split_whitespace` yields it: not empty, with no whitespace.
pub open spec fn is_word(w: Seq<char>) -> bool {
    w.len() > 0 && forall|i: int| 0 <= i < w.len() ==> !is_ws(#[trigger] w[i])
}

pub open spec fn all_words(ws: Seq<Seq<char>>) -> bool {
    forall|j: int| 0 <= j < ws.len() ==> is_word(#[trigger] ws[j])
}

proof fn lemma_words_empty(s: Seq<char>)
    requires
        strip_start(s, CharClass::Whitespace).len() == 0,
    ensures
        words(s) == Seq::<Seq<char>>::empty(),
{
}

/// Every piece that `words` yields is a word.
pub proof fn lemma_words_are_words(s: Seq<char>)
    ensures
        all_words(words(s)),
    decreases s.len(),
{
    let t = strip_start(s, CharClass::Whitespace);
    lemma_leading(s, CharClass::Whitespace);
    if t.len() > 0 {
        let n = leading(t, CharClass::NotWhitespace);
        assert(in_class(CharClass::NotWhitespace, t[0]));
        lemma_leading(t, CharClass::NotWhitespace);
        let rest = t.skip(n as int);
        lemma_words_are_words(rest);
        let w = t.take(n as int);
        assert(is_word(w)) by {
            assert forall|i: int| 0 <= i < w.len() implies !is_ws(#[trigger] w[i]) by {
                assert(w[i] == t[i]);
                assert(in_class(CharClass::NotWhitespace, t[i]));
            }
        }
        let all = seq![w] + words(rest);
        assert(words(s) == all);
        assert forall|j: int| 0 <= j < all.len() implies is_word(#[trigger] all[j]) by {
            if j > 0 {
                assert(all[j] == words(rest)[j - 1]);
            }
        }
    }
}

/// A string with a non-whitespace character has a word.
pub proof fn lemma_words_nonempty(s: Seq<char>, i: int)
    requires
        0 <= i < s.len(),
        !is_ws(s[i]),
    ensures
        words(s).len() > 0,
{
    lemma_leading(s, CharClass::Whitespace);
    if leading(s, CharClass::Whitespace) > i {
        assert(in_class(CharClass::Whitespace, s[i]));
    }
    let t = strip_start(s, CharClass::Whitespace);
    assert(t.len() > 0);
    assert(in_class(CharClass::NotWhitespace, t[0]));
    lemma_leading(t, CharClass::NotWhitespace);
}

/// Splitting at a whitespace character splits the words.
pub proof fn lemma_words_split(a: Seq<char>, c: char, b: Seq<char>)
    requires
        is_ws(c),
    ensures
        words(a + seq![c] + b) == words(a) + words(b),
    decreases a.len(),
{
    let s = a + seq![c] + b;
    let ws = CharClass::Whitespace;
    let nws = CharClass::NotWhitespace;
    lemma_leading(a, ws);
    let p = leading(a, ws);
    if p == a.len() {
        lemma_leading(b, ws);
        let q = leading(b, ws);
        assert forall|j: int| 0 <= j < a.len() + 1 + q implies in_class(ws, #[trigger] s[j]) by {
            if j < a.len() {
                assert(s[j] == a[j]);
            } else if j == a.len() {
                assert(s[j] == c);
            } else {
                assert(s[j] == b[j - a.len() - 1]);
            }
        }
        if a.len() + 1 + q < s.len() {
            assert(s[a.len() + 1 + q as int] == b[q as int]);
        }
        lemma_leading_at(s, ws, a.len() + 1 + q as int);
        assert(strip_start(s, ws) =~= strip_start(b, ws));
        lemma_words_empty(a);
        assert(words(a) + words(b) =~= words(b));
    } else {
        assert forall|j: int| 0 <= j < p implies in_class(ws, #[trigger] s[j]) by {
            assert(s[j] == a[j]);
        }
        assert(s[p as int] == a[p as int]);
        lemma_leading_at(s, ws, p as int);
        let t = strip_start(a, ws);
        let ts = strip_start(s, ws);
        assert(ts =~= t + seq![c] + b);
        assert(t[0] == a[p as int]);
        assert(in_class(nws, t[0]));
        lemma_leading(t, nws);
        let n = leading(t, nws);
        assert forall|j: int| 0 <= j < n implies in_class(nws, #[trigger] ts[j]) by {
            assert(ts[j] == t[j]);
        }
        if n < t.len() {
            assert(ts[n as int] == t[n as int]);
        } else {
            assert(ts[n as int] == c);
        }
        lemma_leading_at(ts, nws, n as int);
        let rest = t.skip(n as int);
        lemma_words_split(rest, c, b);
        assert(ts.take(n as int) =~= t.take(n as int));
        assert(ts.skip(n as int) =~= rest + seq![c] + b);
        assert(words(a) == seq![t.take(n as int)] + words(rest));
        assert(words(s) == seq![t.take(n as int)] + words(rest + seq![c] + b));
        assert(words(s) =~= words(a) + words(b));
    }
}

/// A word is its own only word.
pub proof fn lemma_words_of_word(w: Seq<char>)
    requires
        is_word(w),
    ensures
        words(w) == seq![w],
{
    assert(!in_class(CharClass::Whitespace, w[0]));
    lemma_leading_at(w, CharClass::Whitespace, 0);
    assert(strip_start(w, CharClass::Whitespace) =~= w);
    assert forall|j: int| 0 <= j < w.len() implies in_class(
        CharClass::NotWhitespace,
        #[trigger] w[j],
    ) by {}
    lemma_leading_at(w, CharClass::NotWhitespace, w.len() as int);
    assert(w.take(w.len() as int) =~= w);
    let e = w.skip(w.len() as int);
    lemma_words_empty(e);
    assert(seq![w] + words(e) =~= seq![w]);
}

/// Words joined by single spaces split back into the same words.
pub proof fn lemma_words_of_join(ws: Seq<Seq<char>>)
    requires
        all_words(ws),
    ensures
        words(join(ws, seq![' '])) == ws,
    decreases ws.len(),
{
    if ws.len() == 0 {
        lemma_words_empty(join(ws, seq![' ']));
        assert(words(join(ws, seq![' '])) =~= ws);
    } else if ws.len() == 1 {
        assert(is_word(ws[0]));
        lemma_words_of_word(ws[0]);
        assert(seq![ws[0]] =~= ws);
    } else {
        let init = ws.drop_last();
        assert(all_words(init)) by {
            assert forall|j: int| 0 <= j < init.len() implies is_word(#[trigger] init[j]) by {
                assert(init[j] == ws[j]);
            }
        }
        lemma_words_of_join(init);
        assert(is_word(ws[ws.len() - 1]));
        lemma_words_of_word(ws.last());
        assert(is_ws(' '));
        lemma_words_split(join(init, seq![' ']), ' ', ws.last());
        assert(init + seq![ws.last()] =~= ws);
    }
}

/// Joining two non-empty lists puts the separator between their joins.
pub proof fn lemma_join_concat(x: Seq<Seq<char>>, y: Seq<Seq<char>>, sep: Seq<char>)
    requires
        x.len() > 0,
        y.len() > 0,
    ensures
        join(x + y, sep) == join(x, sep) + sep + join(y, sep),
    decreases y.len(),
{
    if y.len() == 1 {
        assert((x + y).drop_last() =~= x);
        assert((x + y).last() == y[0]);
    } else {
        let y0 = y.drop_last();
        lemma_join_concat(x, y0, sep);
        assert((x + y).drop_last() =~= x + y0);
        assert((x + y).last() == y.last());
        assert(join(x + y, sep) =~= join(x, sep) + sep + join(y, sep));
    }
}

/// Leading count of `s[start..]`.
pub fn leading_count_from(s: &[char], start: usize, k: CharClass) -> (n: usize)
    requires
        start <= s@.len(),
    ensures
        n == leading(s@.skip(start as int), k),
        start + n <= s@.len(),
        s@.len() <= usize::MAX,
{
    let mut i: usize = start;
    while i < s.len() && class_has(k, s[i])
        invariant
            start <= i <= s@.len(),
            forall|j: int| start <= j < i ==> in_class(k, #[trigger] s@[j]),
        decreases s@.len() - i,
    {
        i = i + 1;
    }
    proof {
        let t = s@.skip(start as int);
        assert forall|j: int| 0 <= j < i - start implies in_class(k, #[trigger] t[j]) by {
            assert(t[j] == s@[start + j]);
        }
        lemma_leading_at(t, k, i - start);
    }
    i - start
}

pub fn split_words(s: &[char]) -> (ws: Vec<Vec<char>>)
    ensures
        views(ws@) == words(s@),
{
    let mut out: Vec<Vec<char>> = Vec::new();
    let mut i: usize = 0;
    assert(s@.skip(0) =~= s@);
    assert(views(out@) + words(s@) =~= words(s@));
    loop
        invariant
            i <= s@.len(),
            words(s@) == views(out@) + words(s@.skip(i as int)),
        decreases s@.len() - i,
    {
        let ghost rest = s@.skip(i as int);
        let a = leading_count_from(s, i, CharClass::Whitespace);
        let ghost t = strip_start(rest, CharClass::Whitespace);
        assert(t =~= s@.skip((i + a) as int));
        if i + a == s.len() {
            assert(words(rest) =~= Seq::<Seq<char>>::empty());
            assert(views(out@) + words(rest) =~= views(out@));
            assert(s@.skip(i as int) == rest);
            return out;
        }
        let n = leading_count_from(s, i + a, CharClass::NotWhitespace);
        proof {
            lemma_leading(rest, CharClass::Whitespace);
            assert(t[0] == s@[(i + a) as int]);
        }
        let w = subslice(s, i + a, i + a + n);
        assert(w@ =~= t.take(n as int));
        assert(t.skip(n as int) =~= s@.skip((i + a + n) as int));
        let ghost before = views(out@);
        out.push(w);
        assert(views(out@) =~= before.push(w@));
        assert(words(rest) == seq![t.take(n as int)] + words(t.skip(n as int)));
        assert(before + words(rest) =~= views(out@) + words(t.skip(n as int)));
        i = i + a + n;
    }
}

pub fn join_words(ws: &Vec<Vec<char>>, sep: &[char]) -> (r: Vec<char>)
    ensures
        r@ == join(views(ws@), sep@),
{
    let mut out: Vec<char> = Vec::new();
    let mut i: usize = 0;
    while i < ws.len()
        invariant
            i <= ws@.len(),
            out@ == join(views(ws@).take(i as int), sep@),
        decreases ws@.len() - i,
    {
        let ghost prev = views(ws@).take(i as int);
        if i > 0 {
            append(&mut out, sep);
        }
        append(&mut out, ws[i].as_slice());
        proof {
            let cur = views(ws@).take(i + 1);
            assert(cur.drop_last() =~= prev);
            assert(cur.last() == ws[i as int]@);
            if i == 0 {
                assert(cur.len() == 1);
                assert(out@ =~= cur[0]);
            }
        }
        i = i + 1;
    }
    assert(views(ws@).take(ws@.len() as int) =~= views(ws@));
    out
}

/// Appends `tail` to `v`.
pub fn append(v: &mut Vec<char>, tail: &[char])
    ensures
        final(v)@ == old(v)@ + tail@,
{
    let mut i: usize = 0;
    while i < tail.len()
        invariant
            i <= tail@.len(),
            v@ == old(v)@ + tail@.take(i as int),
        decreases tail@.len() - i,
    {
        v.push(tail[i]);
        i = i + 1;
    }
    assert(tail@.take(tail@.len() as int) =~= tail@);
}

// ---------------------------------------------------------------------------
// Lengths and conversions
// ---------------------------------------------------------------------------

/// Bytes that `c` takes in UTF-8.
pub open spec fn utf8_width(c: char) -> nat {
    if (c as u32) < 0x80 {
        1
    } else if (c as u32) < 0x800 {
        2
    } else if (c as u32) < 0x10000 {
        3
    } else {
        4
    }
}

/// `str::len`: the length in UTF-8 bytes.
pub open spec fn byte_len(s: Seq<char>) -> nat
    decreases s.len(),
{
    if s.len() == 0 {
        0
    } else {
        byte_len(s.drop_last()) + utf8_width(s.last())
    }
}

pub proof fn lemma_byte_len_monotone(s: Seq<char>, i: int)
    requires
        0 <= i <= s.len(),
    ensures
        byte_len(s.take(i)) <= byte_len(s),
        i <= byte_len(s.take(i)),
    decreases s.len(),
{
    if i < s.len() {
        assert(s.drop_last().take(i) =~= s.take(i));
        lemma_byte_len_monotone(s.drop_last(), i);
    } else {
        assert(s.take(i) =~= s);
        if s.len() > 0 {
            lemma_byte_len_monotone(s.drop_last(), i - 1);
            assert(s.drop_last().take(i - 1) =~= s.drop_last());
        }
    }
}

/// The UTF-8 length of `s`, or `cap` when it is larger.
pub fn byte_len_capped(s: &[char], cap: usize) -> (n: usize)
    ensures
        n == if byte_len(s@) < cap { byte_len(s@) } else { cap as nat },
{
    if cap == 0 {
        return 0;
    }
    let mut total: usize = 0;
    let mut i: usize = 0;
    assert(s@.take(0) =~= Seq::<char>::empty());
    while i < s.len()
        invariant
            i <= s@.len(),
            total == byte_len(s@.take(i as int)),
            total < cap,
        decreases s@.len() - i,
    {
        let c = s[i];
        let u = c as u32;
        let w: usize = if u < 0x80 {
            1
        } else if u < 0x800 {
            2
        } else if u < 0x10000 {
            3
        } else {
            4
        };
        assert(s@.take(i + 1).drop_last() =~= s@.take(i as int));
        if w >= cap - total {
            proof {
                lemma_byte_len_monotone(s@, i + 1);
            }
            return cap;
        }
        total = total + w;
        i = i + 1;
    }
    assert(s@.take(s@.len() as int) =~= s@);
    total
}

/// The characters of a string slice, in order.
pub fn chars_of(s: &str) -> (v: Vec<char>)
    ensures
        v@ == s@,
{
    let mut v: Vec<char> = Vec::new();
    for c in it: s.chars()
        invariant
            v@ == it.seq().take(it.index() as int),
            it.seq() == s@,
    {
        v.push(c);
    }
    v
}

/// Collects characters into a `String` (`FromIterator<char> for String`).
#[verifier::external_body]
pub(crate) fn string_of(v: &[char]) -> (s: String)
    ensures
        s@ == v@,
{
    v.iter().collect::<String>()
}

/// `str::to_lowercase` (Unicode `Lowercase` mapping), named for its result.
pub uninterp spec fn lowercase(s: Seq<char>) -> Seq<char>;

/// `str::to_uppercase` (Unicode `Uppercase` mapping), named for its result.
pub uninterp spec fn uppercase(s: Seq<char>) -> Seq<char>;

/// `char::to_uppercase` collected into a string.
pub uninterp spec fn char_uppercase(c: char) -> Seq<char>;

/// `char::is_uppercase` (Unicode `Uppercase` property).
pub uninterp spec fn upper_case_char(c: char) -> bool;

/// Calls `str::to_lowercase`; the result is named `lowercase`.
#[verifier::external_body]
pub(crate) fn to_lowercase(s: &[char]) -> (r: Vec<char>)
    ensures
        r@ == lowercase(s@),
{
    s.iter().collect::<String>().to_lowercase().chars().collect()
}

/// Calls `str::to_uppercase`; the result is named `uppercase`.
#[verifier::external_body]
pub(crate) fn to_uppercase(s: &[char]) -> (r: Vec<char>)
    ensures
        r@ == uppercase(s@),
{
    s.iter().collect::<String>().to_uppercase().chars().collect()
}

/// Calls `char::to_uppercase`; the result is named `char_uppercase`.
#[verifier::external_body]
pub(crate) fn char_to_uppercase(c: char) -> (r: Vec<char>)
    ensures
        r@ == char_uppercase(c),
{
    c.to_uppercase().collect()
}

/// Calls `char::is_uppercase`; the result is named `upper_case_char`.
#[verifier::external_body]
pub(crate) fn is_upper_case(c: char) -> (b: bool)
    ensures
        b == upper_case_char(c),
{
    c.is_uppercase()
}

} // verus!
