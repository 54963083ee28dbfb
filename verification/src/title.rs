//! The course title shown for a paper, cleaned from the raw text that PDF
//! extraction stored.
use vstd::prelude::*;
use crate::display::{code_label, owned, sanitize_code};
use crate::patterns::{compile, regex_compiles, regex_replaced, replace_all};
use crate::text::{
    alphabetic, append, byte_len, byte_len_capped, char_to_uppercase, char_uppercase, chars_of,
    contains, contains_in, ends_with, ends_with_in, eq_ascii_ci, eq_ignore_ascii_case, find,
    find_in, is_alphabetic, is_ascii_digit, is_digit, is_upper_case, join, join_words,
    lowercase, same, split_words, starts_with, starts_with_in, strip_start, strip_start_of,
    string_of, subslice, to_lowercase, to_uppercase, trim, trim_of, upper_case_char,
    uppercase, views, words, CharClass,
};

verus! {

/// A digit followed by an ASCII letter.
pub const NUM_LETTER_PATTERN: &'static str = r"(\d)([A-Za-z])";

/// A word of three or more letters with a Roman numeral glued to its end.
pub const ROMAN_CONCAT_PATTERN: &'static str = r"(?i)\b([a-z]{3,})(I{2,3}|IV|VI{0,3}|IX|XI{0,2})\b";

/// A course code, with or without a two-digit year prefix.
pub const CODE_PATTERN: &'static str = r"(?i)(\b\d{2})?[A-Z]{2,6}\d{3,4}[A-Z]?\b";

/// A run of whitespace.
pub const SPACES_PATTERN: &'static str = r"\s+";

/// The four title patterns compile.
pub open spec fn title_patterns_compile() -> bool {
    &&& regex_compiles(NUM_LETTER_PATTERN@)
    &&& regex_compiles(ROMAN_CONCAT_PATTERN@)
    &&& regex_compiles(CODE_PATTERN@)
    &&& regex_compiles(SPACES_PATTERN@)
}

// ---------------------------------------------------------------------------
// Word lists
// ---------------------------------------------------------------------------

/// Words kept in lower case anywhere but at the start of a title.
pub open spec fn small_words() -> Seq<Seq<char>> {
    seq![
        "and"@,
        "or"@,
        "of"@,
        "the"@,
        "in"@,
        "for"@,
        "a"@,
        "an"@,
        "to"@,
        "on"@,
        "at"@,
        "by"@,
        "with"@,
        "from"@,
        "its"@,
    ]
}

/// Roman numerals kept in upper case.
pub open spec fn roman_numerals() -> Seq<Seq<char>> {
    seq!["II"@, "III"@, "IV"@, "V"@, "VI"@, "VII"@, "VIII"@, "IX"@, "X"@, "XI"@, "XII"@]
}

/// Lower-case fragments that mark a title as question text or exam metadata.
pub open spec fn garbage_markers() -> Seq<Seq<char>> {
    seq![
        "mod 19"@,
        "lfsr"@,
        "shifted from"@,
        "and the second"@,
        "reflections"@,
        "nucleons"@,
        "binding energy"@,
        "0 v when"@,
        "802.11"@,
        "researchers"@,
        "co-1"@,
        "co-2"@,
        "bl-1"@,
        "bl-2"@,
        "co 1"@,
        "bl 1"@,
        "semester"@,
        "assessment"@,
        "mid term"@,
        "mid-term"@,
        "end term"@,
        "end-term"@,
        "regular"@,
        "supplymentary"@,
        "supplementary"@,
        "first sem"@,
        "second sem"@,
        "third sem"@,
        "fourth sem"@,
        "fifth sem"@,
        "sixth sem"@,
        "seventh sem"@,
        "eighth sem"@,
    ]
}

/// Sentence openings that mark a title as question text.
pub open spec fn garbage_openings() -> Seq<Seq<char>> {
    seq!["of "@, "with "@, "and "@, "the "@, "are "@, "is "@, "in "@, "ieee "@]
}

fn small_word_list() -> (v: Vec<Vec<char>>)
    ensures
        views(v@) == small_words(),
{
    let mut v: Vec<Vec<char>> = Vec::new();
    v.push(chars_of("and"));
    v.push(chars_of("or"));
    v.push(chars_of("of"));
    v.push(chars_of("the"));
    v.push(chars_of("in"));
    v.push(chars_of("for"));
    v.push(chars_of("a"));
    v.push(chars_of("an"));
    v.push(chars_of("to"));
    v.push(chars_of("on"));
    v.push(chars_of("at"));
    v.push(chars_of("by"));
    v.push(chars_of("with"));
    v.push(chars_of("from"));
    v.push(chars_of("its"));
    assert(views(v@) =~= small_words());
    v
}

fn roman_list() -> (v: Vec<Vec<char>>)
    ensures
        views(v@) == roman_numerals(),
{
    let mut v: Vec<Vec<char>> = Vec::new();
    v.push(chars_of("II"));
    v.push(chars_of("III"));
    v.push(chars_of("IV"));
    v.push(chars_of("V"));
    v.push(chars_of("VI"));
    v.push(chars_of("VII"));
    v.push(chars_of("VIII"));
    v.push(chars_of("IX"));
    v.push(chars_of("X"));
    v.push(chars_of("XI"));
    v.push(chars_of("XII"));
    assert(views(v@) =~= roman_numerals());
    v
}

fn marker_list() -> (v: Vec<Vec<char>>)
    ensures
        views(v@) == garbage_markers(),
{
    let mut v: Vec<Vec<char>> = Vec::new();
    v.push(chars_of("mod 19"));
    v.push(chars_of("lfsr"));
    v.push(chars_of("shifted from"));
    v.push(chars_of("and the second"));
    v.push(chars_of("reflections"));
    v.push(chars_of("nucleons"));
    v.push(chars_of("binding energy"));
    v.push(chars_of("0 v when"));
    v.push(chars_of("802.11"));
    v.push(chars_of("researchers"));
    v.push(chars_of("co-1"));
    v.push(chars_of("co-2"));
    v.push(chars_of("bl-1"));
    v.push(chars_of("bl-2"));
    v.push(chars_of("co 1"));
    v.push(chars_of("bl 1"));
    v.push(chars_of("semester"));
    v.push(chars_of("assessment"));
    v.push(chars_of("mid term"));
    v.push(chars_of("mid-term"));
    v.push(chars_of("end term"));
    v.push(chars_of("end-term"));
    v.push(chars_of("regular"));
    v.push(chars_of("supplymentary"));
    v.push(chars_of("supplementary"));
    v.push(chars_of("first sem"));
    v.push(chars_of("second sem"));
    v.push(chars_of("third sem"));
    v.push(chars_of("fourth sem"));
    v.push(chars_of("fifth sem"));
    v.push(chars_of("sixth sem"));
    v.push(chars_of("seventh sem"));
    v.push(chars_of("eighth sem"));
    assert(views(v@) =~= garbage_markers());
    v
}

fn opening_list() -> (v: Vec<Vec<char>>)
    ensures
        views(v@) == garbage_openings(),
{
    let mut v: Vec<Vec<char>> = Vec::new();
    v.push(chars_of("of "));
    v.push(chars_of("with "));
    v.push(chars_of("and "));
    v.push(chars_of("the "));
    v.push(chars_of("are "));
    v.push(chars_of("is "));
    v.push(chars_of("in "));
    v.push(chars_of("ieee "));
    assert(views(v@) =~= garbage_openings());
    v
}

/// Whether `w` is one of the words of `list`.
pub fn member(list: &Vec<Vec<char>>, w: &[char]) -> (b: bool)
    ensures
        b == views(list@).contains(w@),
{
    let mut i: usize = 0;
    while i < list.len()
        invariant
            i <= list@.len(),
            forall|j: int| 0 <= j < i ==> list@[j]@ != w@,
        decreases list@.len() - i,
    {
        if same(list[i].as_slice(), w) {
            assert(views(list@)[i as int] == w@);
            return true;
        }
        i = i + 1;
    }
    assert forall|j: int| 0 <= j < views(list@).len() implies views(list@)[j] != w@ by {
        assert(views(list@)[j] == list@[j]@);
    }
    false
}

/// Whether some word of `list` equals `w` up to ASCII case.
pub fn member_ci(list: &Vec<Vec<char>>, w: &[char]) -> (b: bool)
    ensures
        b == exists|j: int| 0 <= j < list@.len() && eq_ascii_ci(#[trigger] views(list@)[j], w@),
{
    let mut i: usize = 0;
    while i < list.len()
        invariant
            i <= list@.len(),
            forall|j: int| 0 <= j < i ==> !eq_ascii_ci(#[trigger] views(list@)[j], w@),
        decreases list@.len() - i,
    {
        if eq_ignore_ascii_case(list[i].as_slice(), w) {
            assert(eq_ascii_ci(views(list@)[i as int], w@));
            return true;
        }
        i = i + 1;
    }
    false
}

/// Whether `s` contains some fragment of `list`.
pub fn contains_any(list: &Vec<Vec<char>>, s: &[char]) -> (b: bool)
    ensures
        b == exists|j: int| 0 <= j < list@.len() && contains(s@, #[trigger] views(list@)[j]),
{
    let mut i: usize = 0;
    while i < list.len()
        invariant
            i <= list@.len(),
            forall|j: int| 0 <= j < i ==> !contains(s@, #[trigger] views(list@)[j]),
        decreases list@.len() - i,
    {
        if contains_in(s, list[i].as_slice()) {
            assert(contains(s@, views(list@)[i as int]));
            return true;
        }
        i = i + 1;
    }
    false
}

/// Whether `s` starts with some opening of `list`.
pub fn starts_with_any(list: &Vec<Vec<char>>, s: &[char]) -> (b: bool)
    ensures
        b == exists|j: int| 0 <= j < list@.len() && starts_with(s@, #[trigger] views(list@)[j]),
{
    let mut i: usize = 0;
    while i < list.len()
        invariant
            i <= list@.len(),
            forall|j: int| 0 <= j < i ==> !starts_with(s@, #[trigger] views(list@)[j]),
        decreases list@.len() - i,
    {
        if starts_with_in(s, list[i].as_slice()) {
            assert(starts_with(s@, views(list@)[i as int]));
            return true;
        }
        i = i + 1;
    }
    false
}


// ---------------------------------------------------------------------------
// Cleaning the raw text
// ---------------------------------------------------------------------------

/// The trimmed title without a trailing `.pdf`/`.PDF`.
pub open spec fn without_pdf_suffix(t: Seq<char>) -> Seq<char> {
    if ends_with(t, ".pdf"@) || ends_with(t, ".PDF"@) {
        trim(t.take(t.len() - 4))
    } else {
        t
    }
}

/// The text before the first underscore (where file-name metadata starts).
pub open spec fn before_underscore(t: Seq<char>) -> Seq<char> {
    match find(t, seq!['_']) {
        Some(p) => trim(t.take(p)),
        None => t,
    }
}

/// The title with surrounding space, a `.pdf` suffix and file-name metadata removed.
pub open spec fn title_head(title: Seq<char>) -> Seq<char> {
    before_underscore(without_pdf_suffix(trim(title)))
}

pub open spec fn is_title_punct(c: char) -> bool {
    c == '(' || c == ')' || c == '[' || c == ']' || c == '/' || c == '-' || c == ':' || c == ','
        || c == '.'
}

/// Brackets, slashes, dashes, colons, commas and periods turned into spaces.
pub open spec fn blank_punct(s: Seq<char>) -> Seq<char> {
    s.map_values(|c: char| if is_title_punct(c) { ' ' } else { c })
}

/// The raw title put through the four patterns and the punctuation cleanup.
pub open spec fn cleaned_title(title: Seq<char>) -> Seq<char> {
    let t3 = regex_replaced(NUM_LETTER_PATTERN@, title_head(title), "$1 $2"@);
    let t4 = regex_replaced(ROMAN_CONCAT_PATTERN@, t3, "$1 $2"@);
    let t5 = strip_start(t4, CharClass::NotAlphabetic);
    let t6 = trim(regex_replaced(CODE_PATTERN@, t5, " "@));
    let t8 = strip_start(blank_punct(t6), CharClass::NotAlphabetic);
    trim(regex_replaced(SPACES_PATTERN@, t8, " "@))
}

pub fn title_head_of(title: &[char]) -> (r: Vec<char>)
    ensures
        r@ == title_head(title@),
{
    let t0 = trim_of(title);
    let pdf_lower = chars_of(".pdf");
    let pdf_upper = chars_of(".PDF");
    let t1 = if ends_with_in(t0.as_slice(), pdf_lower.as_slice()) || ends_with_in(
        t0.as_slice(),
        pdf_upper.as_slice(),
    ) {
        proof {
            reveal_strlit(".pdf");
            reveal_strlit(".PDF");
        }
        let head = subslice(t0.as_slice(), 0, t0.len() - 4);
        assert(head@ =~= t0@.take(t0@.len() - 4));
        trim_of(head.as_slice())
    } else {
        t0
    };
    let mut underscore: Vec<char> = Vec::new();
    underscore.push('_');
    assert(underscore@ =~= seq!['_']);
    match find_in(t1.as_slice(), underscore.as_slice()) {
        Some(p) => {
            proof {
                crate::text::lemma_find(t1@, seq!['_']);
            }
            let head = subslice(t1.as_slice(), 0, p);
            assert(head@ =~= t1@.take(p as int));
            trim_of(head.as_slice())
        },
        None => t1,
    }
}

pub fn blank_punct_of(s: &[char]) -> (r: Vec<char>)
    ensures
        r@ == blank_punct(s@),
{
    let mut out: Vec<char> = Vec::new();
    let mut i: usize = 0;
    while i < s.len()
        invariant
            i <= s@.len(),
            out@ == blank_punct(s@.take(i as int)),
        decreases s@.len() - i,
    {
        let c = s[i];
        let d = if c == '(' || c == ')' || c == '[' || c == ']' || c == '/' || c == '-' || c
            == ':' || c == ',' || c == '.' {
            ' '
        } else {
            c
        };
        out.push(d);
        assert(blank_punct(s@.take(i + 1)) =~= blank_punct(s@.take(i as int)).push(d));
        i = i + 1;
    }
    assert(s@.take(s@.len() as int) =~= s@);
    out
}


// ---------------------------------------------------------------------------
// Word casing
// ---------------------------------------------------------------------------

/// `w` is a Roman numeral of the list, in any ASCII case.
pub open spec fn is_roman(w: Seq<char>) -> bool {
    exists|j: int| 0 <= j < roman_numerals().len() && eq_ascii_ci(#[trigger] roman_numerals()[j], w)
}

/// `w` is an upper-case acronym of two to four bytes holding a letter.
pub open spec fn is_acronym(w: Seq<char>, lower: Seq<char>) -> bool {
    &&& 2 <= byte_len(w) <= 4
    &&& forall|j: int| 0 <= j < w.len() ==> upper_case_char(#[trigger] w[j])
    &&& exists|j: int| 0 <= j < w.len() && alphabetic(#[trigger] w[j])
    &&& !small_words().contains(lower)
}

/// The lower-case word with its first character in upper case.
pub open spec fn capitalized(lower: Seq<char>) -> Seq<char> {
    if lower.len() == 0 {
        seq![]
    } else {
        char_uppercase(lower[0]) + lower.skip(1)
    }
}

/// How the word at position `i` of an `n`-word title is written.
pub open spec fn cased_word(w: Seq<char>, i: int, n: int) -> Seq<char> {
    let lower = lowercase(w);
    if is_roman(w) {
        uppercase(w)
    } else if eq_ascii_ci(w, "I"@) && (i > 0 || n > 1) {
        "I"@
    } else if i > 0 && small_words().contains(lower) {
        lower
    } else if is_acronym(w, lower) {
        w
    } else {
        capitalized(lower)
    }
}

/// Each word written as `cased_word` says.
pub open spec fn cased_words(ws: Seq<Seq<char>>) -> Seq<Seq<char>> {
    Seq::new(ws.len(), |i: int| cased_word(ws[i], i, ws.len() as int))
}

fn all_upper_case(w: &[char]) -> (b: bool)
    ensures
        b == forall|j: int| 0 <= j < w@.len() ==> upper_case_char(#[trigger] w@[j]),
{
    let mut i: usize = 0;
    while i < w.len()
        invariant
            i <= w@.len(),
            forall|j: int| 0 <= j < i ==> upper_case_char(#[trigger] w@[j]),
        decreases w@.len() - i,
    {
        if !is_upper_case(w[i]) {
            return false;
        }
        i = i + 1;
    }
    true
}

fn any_alphabetic(w: &[char]) -> (b: bool)
    ensures
        b == exists|j: int| 0 <= j < w@.len() && alphabetic(#[trigger] w@[j]),
{
    let mut i: usize = 0;
    while i < w.len()
        invariant
            i <= w@.len(),
            forall|j: int| 0 <= j < i ==> !alphabetic(#[trigger] w@[j]),
        decreases w@.len() - i,
    {
        if is_alphabetic(w[i]) {
            return true;
        }
        i = i + 1;
    }
    false
}

/// Writes the word at position `i` of an `n`-word title.
pub fn case_word(
    w: &[char],
    i: usize,
    n: usize,
    smalls: &Vec<Vec<char>>,
    romans: &Vec<Vec<char>>,
) -> (r: Vec<char>)
    requires
        views(smalls@) == small_words(),
        views(romans@) == roman_numerals(),
    ensures
        r@ == cased_word(w@, i as int, n as int),
{
    let lower = to_lowercase(w);
    if member_ci(romans, w) {
        return to_uppercase(w);
    }
    let big_i = chars_of("I");
    if eq_ignore_ascii_case(w, big_i.as_slice()) && (i > 0 || n > 1) {
        return big_i;
    }
    let is_small = member(smalls, lower.as_slice());
    if i > 0 && is_small {
        return lower;
    }
    let blen = byte_len_capped(w, 5);
    if 2 <= blen && blen <= 4 && all_upper_case(w) && any_alphabetic(w) && !is_small {
        let mut copy: Vec<char> = Vec::new();
        append(&mut copy, w);
        return copy;
    }
    if lower.len() == 0 {
        return Vec::new();
    }
    let mut out = char_to_uppercase(lower[0]);
    let rest = subslice(lower.as_slice(), 1, lower.len());
    append(&mut out, rest.as_slice());
    proof {
        assert(rest@ =~= lower@.skip(1));
    }
    out
}

pub fn case_words(ws: &Vec<Vec<char>>) -> (r: Vec<Vec<char>>)
    ensures
        views(r@) == cased_words(views(ws@)),
{
    let smalls = small_word_list();
    let romans = roman_list();
    let n = ws.len();
    let mut out: Vec<Vec<char>> = Vec::new();
    let mut i: usize = 0;
    while i < n
        invariant
            n == ws@.len(),
            i <= n,
            views(smalls@) == small_words(),
            views(romans@) == roman_numerals(),
            views(out@) =~= cased_words(views(ws@)).take(i as int),
        decreases n - i,
    {
        let c = case_word(ws[i].as_slice(), i, n, &smalls, &romans);
        let ghost before = views(out@);
        out.push(c);
        proof {
            assert(views(ws@)[i as int] == ws@[i as int]@);
            assert(views(out@) =~= before.push(c@));
            assert(cased_words(views(ws@)).take(i + 1) =~= cased_words(views(ws@)).take(
                i as int,
            ).push(c@));
        }
        i = i + 1;
    }
    assert(cased_words(views(ws@)).take(n as int) =~= cased_words(views(ws@)));
    out
}


// ---------------------------------------------------------------------------
// Repeated phrases
// ---------------------------------------------------------------------------

/// The `k` words from `i` equal, up to ASCII case, the `k` words after them.
pub open spec fn block_repeats(ws: Seq<Seq<char>>, i: int, k: int) -> bool {
    forall|j: int| 0 <= j < k ==> eq_ascii_ci(#[trigger] ws[i + j], ws[i + k + j])
}

/// The longest block length `1..=k` that repeats at `i`, or 0.
pub open spec fn repeat_len(ws: Seq<Seq<char>>, i: int, k: int) -> int
    decreases k,
{
    if k <= 0 {
        0
    } else if block_repeats(ws, i, k) {
        k
    } else {
        repeat_len(ws, i, k - 1)
    }
}

/// Scanning from position `i`: where the longest phrase starting there is
/// repeated right after itself, the first copy is dropped and the scan stays;
/// otherwise it moves on.
pub open spec fn dedupe_from(ws: Seq<Seq<char>>, i: int) -> Seq<Seq<char>>
    decreases 2 * ws.len() - i,
{
    if i < 0 || i >= ws.len() {
        ws
    } else {
        let k = repeat_len(ws, i, (ws.len() - i) / 2);
        if k > 0 {
            proof {
                lemma_repeat_len(ws, i, (ws.len() - i) / 2);
            }
            dedupe_from(ws.take(i) + ws.skip(i + k), i)
        } else {
            dedupe_from(ws, i + 1)
        }
    }
}

/// Adjacent repeated phrases (`Research Methodology Research Methodology`)
/// reduced to one copy.
pub open spec fn dedupe(ws: Seq<Seq<char>>) -> Seq<Seq<char>> {
    dedupe_from(ws, 0)
}

pub proof fn lemma_repeat_len(ws: Seq<Seq<char>>, i: int, k: int)
    ensures
        0 <= repeat_len(ws, i, k),
        k >= 0 ==> repeat_len(ws, i, k) <= k,
        repeat_len(ws, i, k) > 0 ==> block_repeats(ws, i, repeat_len(ws, i, k)),
        forall|m: int| repeat_len(ws, i, k) < m <= k ==> !block_repeats(ws, i, m),
    decreases k,
{
    if k > 0 && !block_repeats(ws, i, k) {
        lemma_repeat_len(ws, i, k - 1);
    }
}

fn block_repeats_at(ws: &Vec<Vec<char>>, i: usize, k: usize) -> (b: bool)
    requires
        i + 2 * k <= ws@.len(),
    ensures
        b == block_repeats(views(ws@), i as int, k as int),
{
    let mut j: usize = 0;
    let _n = ws.len();
    while j < k
        invariant
            i + 2 * k <= ws@.len(),
            ws@.len() <= usize::MAX,
            j <= k,
            forall|m: int| 0 <= m < j ==> eq_ascii_ci(#[trigger] views(ws@)[i + m], views(ws@)[i + k + m]),
        decreases k - j,
    {
        if !eq_ignore_ascii_case(ws[i + j].as_slice(), ws[i + k + j].as_slice()) {
            assert(views(ws@)[i + j] == ws@[i + j]@);
            assert(views(ws@)[i + k + j] == ws@[i + k + j]@);
            return false;
        }
        assert(views(ws@)[i + j] == ws@[i + j]@);
        assert(views(ws@)[i + k + j] == ws@[i + k + j]@);
        j = j + 1;
    }
    true
}

fn repeat_len_at(ws: &Vec<Vec<char>>, i: usize, k: usize) -> (r: usize)
    requires
        i + 2 * k <= ws@.len(),
    ensures
        r == repeat_len(views(ws@), i as int, k as int),
{
    let mut m = k;
    while m > 0
        invariant
            m <= k,
            i + 2 * k <= ws@.len(),
            repeat_len(views(ws@), i as int, k as int) == repeat_len(views(ws@), i as int, m as int),
        decreases m,
    {
        if block_repeats_at(ws, i, m) {
            return m;
        }
        m = m - 1;
    }
    0
}

/// Removes the `k` words from position `i`.
fn remove_block(ws: &mut Vec<Vec<char>>, i: usize, k: usize)
    requires
        i + k <= old(ws)@.len(),
    ensures
        views(final(ws)@) == views(old(ws)@).take(i as int) + views(old(ws)@).skip(i + k),
        final(ws)@.len() == old(ws)@.len() - k,
{
    let mut m: usize = 0;
    while m < k
        invariant
            i + k <= old(ws)@.len(),
            m <= k,
            ws@ == old(ws)@.take(i as int) + old(ws)@.skip(i + m),
        decreases k - m,
    {
        let ghost before = ws@;
        ws.remove(i);
        assert(ws@ =~= old(ws)@.take(i as int) + old(ws)@.skip(i + m + 1));
        m = m + 1;
    }
    assert(views(ws@) =~= views(old(ws)@).take(i as int) + views(old(ws)@).skip(i + k));
}

pub fn dedupe_words(words: Vec<Vec<char>>) -> (r: Vec<Vec<char>>)
    ensures
        views(r@) == dedupe(views(words@)),
{
    let mut ws = words;
    let mut i: usize = 0;
    while i < ws.len()
        invariant
            i <= ws@.len(),
            dedupe(views(words@)) == dedupe_from(views(ws@), i as int),
        decreases 2 * ws@.len() - i,
    {
        let max_k = (ws.len() - i) / 2;
        let k = repeat_len_at(&ws, i, max_k);
        proof {
            lemma_repeat_len(views(ws@), i as int, max_k as int);
        }
        if k > 0 {
            remove_block(&mut ws, i, k);
        } else {
            i = i + 1;
        }
    }
    ws
}

proof fn lemma_eq_ascii_ci_trans(a: Seq<char>, b: Seq<char>, c: Seq<char>)
    requires
        eq_ascii_ci(a, b),
        eq_ascii_ci(b, c),
    ensures
        eq_ascii_ci(a, c),
{
}

/// Some word of `ws` equals `w` up to ASCII case.
pub open spec fn has_ci_equal(ws: Seq<Seq<char>>, w: Seq<char>) -> bool {
    exists|q: int| 0 <= q < ws.len() && eq_ascii_ci(w, #[trigger] ws[q])
}

proof fn lemma_dedupe_from_keeps(ws: Seq<Seq<char>>, i: int)
    ensures
        forall|p: int| 0 <= p < ws.len() ==> has_ci_equal(dedupe_from(ws, i), #[trigger] ws[p]),
    decreases 2 * ws.len() - i,
{
    if i < 0 || i >= ws.len() {
        assert forall|p: int| 0 <= p < ws.len() implies has_ci_equal(
            dedupe_from(ws, i),
            #[trigger] ws[p],
        ) by {
            assert(eq_ascii_ci(ws[p], dedupe_from(ws, i)[p]));
        }
    } else {
        let k = repeat_len(ws, i, (ws.len() - i) / 2);
        lemma_repeat_len(ws, i, (ws.len() - i) / 2);
        if k > 0 {
            let next = ws.take(i) + ws.skip(i + k);
            lemma_dedupe_from_keeps(next, i);
            let out = dedupe_from(next, i);
            assert(out == dedupe_from(ws, i));
            assert forall|p: int| 0 <= p < ws.len() implies has_ci_equal(out, #[trigger] ws[p]) by {
                if p < i {
                    assert(next[p] == ws[p]);
                } else if p < i + k {
                    assert(block_repeats(ws, i, k));
                    let j = p - i;
                    assert(eq_ascii_ci(ws[i + j], ws[i + k + j]));
                    assert(next[p] == ws[p + k]);
                    assert(has_ci_equal(out, next[p]));
                    let q = choose|q: int| 0 <= q < out.len() && eq_ascii_ci(next[p], #[trigger] out[q]);
                    lemma_eq_ascii_ci_trans(ws[p], next[p], out[q]);
                } else {
                    assert(next[p - k] == ws[p]);
                    assert(has_ci_equal(out, next[p - k]));
                }
            }
        } else {
            lemma_dedupe_from_keeps(ws, i + 1);
        }
    }
}

/// Dropping repeated phrases loses no word: every word of the input has an
/// equal, up to ASCII case, among the words kept.
pub proof fn dedupe_keeps_every_word(ws: Seq<Seq<char>>)
    ensures
        forall|p: int| 0 <= p < ws.len() ==> has_ci_equal(dedupe(ws), #[trigger] ws[p]),
{
    lemma_dedupe_from_keeps(ws, 0);
}


/// The head of a title holds no underscore.
pub open spec fn underscore_free(s: Seq<char>) -> bool {
    forall|i: int| 0 <= i < s.len() ==> s[i] != '_'
}

/// `s` with its leading `a` and its characters from `b` up to `p` being
/// whitespace, and `s[a..b]` trimmed.
pub open spec fn trimmed_piece(s: Seq<char>, a: int, b: int, p: int) -> bool {
    &&& 0 <= a <= b <= p <= s.len()
    &&& forall|i: int| 0 <= i < a ==> crate::text::is_ws(#[trigger] s[i])
    &&& forall|i: int| b <= i < p ==> crate::text::is_ws(#[trigger] s[i])
    &&& (a < b ==> !crate::text::is_ws(s[a]) && !crate::text::is_ws(s[b - 1]))
}

/// File-name metadata, which starts at the first underscore, never reaches
/// the shown title. Of the trimmed title without its `.pdf` suffix, the head
/// keeps everything when there is no underscore; otherwise exactly the text
/// before the first underscore, less the whitespace around it. Two titles
/// with the same head are cleaned and shown alike, whatever followed their
/// underscores.
pub proof fn title_head_stops_at_the_first_underscore(title: Seq<char>, other: Seq<char>, code: Seq<char>)
    ensures
        underscore_free(title_head(title)),
        underscore_free(without_pdf_suffix(trim(title))) ==> title_head(title) == without_pdf_suffix(
            trim(title),
        ),
        forall|p: int|
            0 <= p < without_pdf_suffix(trim(title)).len() && without_pdf_suffix(trim(title))[p] == '_'
                && underscore_free(#[trigger] without_pdf_suffix(trim(title)).take(p))
                ==> exists|a: int, b: int|
                trimmed_piece(without_pdf_suffix(trim(title)), a, b, p) && title_head(title)
                    == without_pdf_suffix(trim(title)).subrange(a, b),
        title_head(title) == title_head(other) ==> cleaned_title(title) == cleaned_title(other)
            && title_label(title, code) == title_label(other, code),
{
    let w = without_pdf_suffix(trim(title));
    let us = seq!['_'];
    crate::text::lemma_find(w, us);
    match find(w, us) {
        None => {
            assert forall|i: int| 0 <= i < w.len() implies w[i] != '_' by {
                if w[i] == '_' {
                    assert(w.subrange(i, i + 1) =~= us);
                    assert(crate::text::occurs_at(w, us, i));
                }
            }
        },
        Some(p0) => {
            assert(w.subrange(p0, p0 + 1)[0] == w[p0]);
            assert(w[p0] == '_');
            assert forall|i: int| 0 <= i < p0 implies w[i] != '_' by {
                if w[i] == '_' {
                    assert(w.subrange(i, i + 1) =~= us);
                    assert(crate::text::occurs_at(w, us, i));
                }
            }
            let u = w.take(p0);
            let ws = CharClass::Whitespace;
            crate::text::lemma_leading(u, ws);
            let a = crate::text::leading(u, ws);
            let v = u.skip(a as int);
            crate::text::lemma_trailing(v, ws);
            let tr = crate::text::trailing(v, ws);
            let b = p0 - tr;
            let h = title_head(title);
            assert(h =~= w.subrange(a as int, b));
            assert forall|i: int| 0 <= i < h.len() implies h[i] != '_' by {
                assert(h[i] == w[a + i]);
            }
            assert forall|i: int| 0 <= i < a implies crate::text::is_ws(#[trigger] w[i]) by {
                assert(w[i] == u[i]);
                assert(crate::text::in_class(ws, u[i]));
            }
            assert forall|i: int| b <= i < p0 implies crate::text::is_ws(#[trigger] w[i]) by {
                assert(w[i] == v[i - a]);
                assert(crate::text::in_class(ws, v[i - a]));
            }
            if a < b {
                assert(w[a as int] == u[a as int]);
                assert(w[b - 1] == v[v.len() - 1 - tr]);
            }
            assert(trimmed_piece(w, a as int, b, p0));
            assert forall|p: int|
                0 <= p < w.len() && w[p] == '_' && underscore_free(#[trigger] w.take(p)) implies exists|
                a2: int,
                b2: int,
            | trimmed_piece(w, a2, b2, p) && h == w.subrange(a2, b2) by {
                if p < p0 {
                } else if p > p0 {
                    assert(w.take(p)[p0] == w[p0]);
                }
                assert(p == p0);
            }
        },
    }
}

/// A trailing `.pdf` or `.PDF` is not part of the title: a title shows the
/// same head as the title with that suffix cut off, unless what is left
/// ends in such a suffix again.
pub proof fn pdf_suffix_is_dropped(title: Seq<char>)
    ensures
        ({
            let t = trim(title);
            let rest = t.take(t.len() - 4);
            (ends_with(t, ".pdf"@) || ends_with(t, ".PDF"@)) && !ends_with(trim(rest), ".pdf"@)
                && !ends_with(trim(rest), ".PDF"@) ==> title_head(title) == title_head(rest)
        }),
{
    crate::text::lemma_trim_twice(title);
    crate::text::lemma_trim_twice(trim(title).take(trim(title).len() - 4));
}

// ---------------------------------------------------------------------------
// The finished title
// ---------------------------------------------------------------------------

/// A cleaned title that is not a real course title: question text or exam
/// metadata, a sentence fragment, a leading digit, under three bytes, or the
/// course code itself.
pub open spec fn title_is_garbage(t: Seq<char>, code: Seq<char>) -> bool {
    let l = lowercase(t);
    ||| exists|j: int| 0 <= j < garbage_markers().len() && contains(l, #[trigger] garbage_markers()[j])
    ||| exists|j: int| 0 <= j < garbage_openings().len() && starts_with(l, #[trigger] garbage_openings()[j])
    ||| (t.len() > 0 && is_ascii_digit(t[0]))
    ||| byte_len(t) < 3
    ||| eq_ascii_ci(t, code)
}

/// The title used when no real title can be recovered.
pub open spec fn fallback_title(code: Seq<char>) -> Seq<char> {
    code_label(code) + " Examination Paper"@
}

/// The words of a cleaned title, cased and without repeated phrases.
pub open spec fn title_from_words(t: Seq<char>, code: Seq<char>) -> Seq<char> {
    let r = join(dedupe(cased_words(words(t))), " "@);
    if byte_len(r) < 3 {
        fallback_title(code)
    } else {
        r
    }
}

/// The title shown for a cleaned title `t` of a paper with course code `code`.
pub open spec fn finished_title(t: Seq<char>, code: Seq<char>) -> Seq<char> {
    if title_is_garbage(t, code) {
        fallback_title(code)
    } else {
        title_from_words(t, code)
    }
}

/// The title shown for a paper whose stored title is `title`.
pub open spec fn title_label(title: Seq<char>, code: Seq<char>) -> Seq<char> {
    finished_title(cleaned_title(title), code)
}

fn fallback_title_of(code: &str) -> (r: String)
    ensures
        r@ == fallback_title(code@),
{
    let c = sanitize_code(code);
    let mut out = chars_of(c.as_str());
    let tail = chars_of(" Examination Paper");
    append(&mut out, tail.as_slice());
    string_of(out.as_slice())
}

fn title_is_garbage_of(t: &[char], code: &[char]) -> (b: bool)
    ensures
        b == title_is_garbage(t@, code@),
{
    let l = to_lowercase(t);
    let markers = marker_list();
    let openings = opening_list();
    contains_any(&markers, l.as_slice()) || starts_with_any(&openings, l.as_slice()) || (t.len()
        > 0 && is_digit(t[0])) || byte_len_capped(t, 3) < 3 || eq_ignore_ascii_case(t, code)
}

/// Finishes a title from its cleaned text `t` (what the patterns left).
pub fn finish_title(t: &str, code: &str) -> (r: String)
    ensures
        r@ == finished_title(t@, code@),
{
    let tv = chars_of(t);
    let cv = chars_of(code);
    if title_is_garbage_of(tv.as_slice(), cv.as_slice()) {
        return fallback_title_of(code);
    }
    let ws = split_words(tv.as_slice());
    let cased = case_words(&ws);
    let kept = dedupe_words(cased);
    let space = chars_of(" ");
    let joined = join_words(&kept, space.as_slice());
    if byte_len_capped(joined.as_slice(), 3) < 3 {
        fallback_title_of(code)
    } else {
        string_of(joined.as_slice())
    }
}

/// The four title patterns, compiled.
pub struct TitlePatterns {
    pub num_letter: crate::patterns::Pattern,
    pub roman_concat: crate::patterns::Pattern,
    pub code: crate::patterns::Pattern,
    pub spaces: crate::patterns::Pattern,
}

impl TitlePatterns {
    pub open spec fn wf(&self) -> bool {
        &&& self.num_letter.source() == NUM_LETTER_PATTERN@
        &&& self.roman_concat.source() == ROMAN_CONCAT_PATTERN@
        &&& self.code.source() == CODE_PATTERN@
        &&& self.spaces.source() == SPACES_PATTERN@
    }

    /// Compiles the four patterns; `None` exactly when one does not compile.
    pub fn compile_all() -> (r: Option<TitlePatterns>)
        ensures
            r is Some <==> title_patterns_compile(),
            r matches Some(p) ==> p.wf(),
    {
        let num_letter = match compile(NUM_LETTER_PATTERN) {
            Some(p) => p,
            None => return None,
        };
        let roman_concat = match compile(ROMAN_CONCAT_PATTERN) {
            Some(p) => p,
            None => return None,
        };
        let code = match compile(CODE_PATTERN) {
            Some(p) => p,
            None => return None,
        };
        let spaces = match compile(SPACES_PATTERN) {
            Some(p) => p,
            None => return None,
        };
        Some(TitlePatterns { num_letter, roman_concat, code, spaces })
    }
}

fn cleaned_title_with(pats: &TitlePatterns, title: &str) -> (r: String)
    requires
        pats.wf(),
    ensures
        r@ == cleaned_title(title@),
{
    let tv = chars_of(title);
    let head = title_head_of(tv.as_slice());
    let s2 = string_of(head.as_slice());
    let s3 = replace_all(&pats.num_letter, s2.as_str(), "$1 $2");
    let s4 = replace_all(&pats.roman_concat, s3.as_str(), "$1 $2");
    let v4 = chars_of(s4.as_str());
    let v5 = strip_start_of(v4.as_slice(), CharClass::NotAlphabetic);
    let s5 = string_of(v5.as_slice());
    let s6 = replace_all(&pats.code, s5.as_str(), " ");
    let v6raw = chars_of(s6.as_str());
    let v6 = trim_of(v6raw.as_slice());
    let v7 = blank_punct_of(v6.as_slice());
    let v8 = strip_start_of(v7.as_slice(), CharClass::NotAlphabetic);
    let s8 = string_of(v8.as_slice());
    let s9 = replace_all(&pats.spaces, s8.as_str(), " ");
    let v9raw = chars_of(s9.as_str());
    let v9 = trim_of(v9raw.as_slice());
    string_of(v9.as_slice())
}

/// The course title shown for a paper, with the title patterns compiled
/// once by the caller.
pub fn clean_title(pats: &TitlePatterns, title: &str, code: &str) -> (r: String)
    requires
        pats.wf(),
    ensures
        r@ == title_label(title@, code@),
{
    let t = cleaned_title_with(pats, title);
    finish_title(t.as_str(), code)
}

/// The course title shown for a paper: the stored `title` cleaned of
/// punctuation, glued codes and numerals, file-name metadata and repeats,
/// title-cased; or `<CODE> Examination Paper` when nothing usable is left.
pub fn sanitize_title(title: &str, code: &str) -> (r: String)
    requires
        title_patterns_compile(),
    ensures
        r@ == title_label(title@, code@),
{
    let pats = match TitlePatterns::compile_all() {
        Some(p) => p,
        None => {
            assert(false);
            return String::new();
        },
    };
    clean_title(&pats, title, code)
}

/// `sanitize_title`, or `None` when the title patterns do not compile.
pub fn sanitize_title_checked(title: &str, code: &str) -> (r: Option<String>)
    ensures
        r is Some <==> title_patterns_compile(),
        r matches Some(s) ==> s@ == title_label(title@, code@),
{
    match TitlePatterns::compile_all() {
        Some(_) => Some(sanitize_title(title, code)),
        None => None,
    }
}

} // verus!
