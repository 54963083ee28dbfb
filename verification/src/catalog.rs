//! Cataloguing downloaded papers: cleaning extracted text, classifying a
//! course by its code and title, and naming the restructured files.
use vstd::prelude::*;
use crate::display::owned;
use crate::text::{
    append, byte_len, chars_of, contains, contains_in, ends_with_in, find, find_in, join,
    join_words, lowercase, same, split_words, starts_with_in, strip, strip_of, string_of, subslice,
    to_lowercase, to_uppercase, trim, trim_of, uppercase, words, CharClass,
};

verus! {

// ---------------------------------------------------------------------------
// Text cleanup
// ---------------------------------------------------------------------------

pub open spec fn is_line_break(c: char) -> bool {
    c == '\t' || c == '\n' || c == '\r'
}

/// Tabs and line breaks turned into spaces, then trimmed.
pub open spec fn clean_text(s: Seq<char>) -> Seq<char> {
    trim(s.map_values(|c: char| if is_line_break(c) { ' ' } else { c }))
}

pub fn sanitize_text_of(s: &[char]) -> (r: Vec<char>)
    ensures
        r@ == clean_text(s@),
{
    let mut out: Vec<char> = Vec::new();
    let mut i: usize = 0;
    while i < s.len()
        invariant
            i <= s@.len(),
            out@ == s@.take(i as int).map_values(|c: char| if is_line_break(c) { ' ' } else { c }),
        decreases s@.len() - i,
    {
        let c = s[i];
        let d = if c == '\t' || c == '\n' || c == '\r' {
            ' '
        } else {
            c
        };
        out.push(d);
        assert(s@.take(i + 1).map_values(|c: char| if is_line_break(c) { ' ' } else { c })
            =~= s@.take(i as int).map_values(|c: char| if is_line_break(c) { ' ' } else { c }).push(d));
        i = i + 1;
    }
    assert(s@.take(s@.len() as int) =~= s@);
    trim_of(out.as_slice())
}

/// Replaces tabs and line breaks with spaces and trims.
pub fn sanitize_text(s: &str) -> (r: String)
    ensures
        r@ == clean_text(s@),
{
    let v = chars_of(s);
    let t = sanitize_text_of(v.as_slice());
    string_of(t.as_slice())
}

/// Words after which extracted header text stops being a title.
pub open spec fn cut_markers() -> Seq<Seq<char>> {
    seq![
        "Time:"@,
        "Duration:"@,
        "Maximum:"@,
        "Marks:"@,
        "Marks"@,
        "(Common to"@,
        "branches please"@,
        "Commented"@,
        "Comment"@,
        "Roll No"@,
        "Register No"@,
        "Reg No"@,
        "Slot"@,
        "Max."@,
    ]
}

/// The text cut before the first occurrence of each marker in turn.
pub open spec fn cut_at_markers(s: Seq<char>, ms: Seq<Seq<char>>) -> Seq<char>
    decreases ms.len(),
{
    if ms.len() == 0 {
        s
    } else {
        let c = cut_at_markers(s, ms.drop_last());
        match find(c, ms.last()) {
            Some(p) => c.take(p),
            None => c,
        }
    }
}

/// A title from extracted text: cut at the first exam-paper marker, spaces
/// collapsed, brackets, dashes, colons and underscores trimmed, at most 60
/// characters; `UNKNOWN` when nothing is left.
pub open spec fn header_title(raw: Seq<char>) -> Seq<char> {
    let cut = cut_at_markers(clean_text(raw), cut_markers());
    let clean = strip(join(words(cut), " "@), CharClass::TitleEdge);
    if clean.len() == 0 {
        "UNKNOWN"@
    } else if clean.len() > 60 {
        clean.take(60)
    } else {
        clean
    }
}

fn marker_list() -> (v: Vec<Vec<char>>)
    ensures
        crate::text::views(v@) == cut_markers(),
{
    let mut v: Vec<Vec<char>> = Vec::new();
    v.push(chars_of("Time:"));
    v.push(chars_of("Duration:"));
    v.push(chars_of("Maximum:"));
    v.push(chars_of("Marks:"));
    v.push(chars_of("Marks"));
    v.push(chars_of("(Common to"));
    v.push(chars_of("branches please"));
    v.push(chars_of("Commented"));
    v.push(chars_of("Comment"));
    v.push(chars_of("Roll No"));
    v.push(chars_of("Register No"));
    v.push(chars_of("Reg No"));
    v.push(chars_of("Slot"));
    v.push(chars_of("Max."));
    assert(crate::text::views(v@) =~= cut_markers());
    v
}

/// The first `n` characters (all of them when there are fewer).
pub fn take_chars(s: &[char], n: usize) -> (r: Vec<char>)
    ensures
        r@ == if s@.len() > n {
            s@.take(n as int)
        } else {
            s@
        },
{
    if s.len() > n {
        subslice(s, 0, n)
    } else {
        let r = subslice(s, 0, s.len());
        assert(r@ =~= s@);
        r
    }
}

pub fn header_title_of(raw: &[char]) -> (r: Vec<char>)
    ensures
        r@ == header_title(raw@),
{
    let text = sanitize_text_of(raw);
    let markers = marker_list();
    let mut clean = text;
    let mut i: usize = 0;
    while i < markers.len()
        invariant
            i <= markers@.len(),
            crate::text::views(markers@) == cut_markers(),
            clean@ == cut_at_markers(clean_text(raw@), cut_markers().take(i as int)),
        decreases markers@.len() - i,
    {
        proof {
            let ms = cut_markers().take(i + 1);
            assert(ms.drop_last() =~= cut_markers().take(i as int));
            assert(ms.last() == markers@[i as int]@);
        }
        match find_in(clean.as_slice(), markers[i].as_slice()) {
            Some(p) => {
                proof {
                    crate::text::lemma_find(clean@, markers@[i as int]@);
                }
                let cut = subslice(clean.as_slice(), 0, p);
                assert(cut@ =~= clean@.take(p as int));
                clean = cut;
            },
            None => {},
        }
        i = i + 1;
    }
    assert(cut_markers().take(markers@.len() as int) =~= cut_markers());
    let ws = split_words(clean.as_slice());
    let space = chars_of(" ");
    let joined = join_words(&ws, space.as_slice());
    let stripped = strip_of(joined.as_slice(), CharClass::TitleEdge);
    if stripped.len() == 0 {
        chars_of("UNKNOWN")
    } else {
        take_chars(stripped.as_slice(), 60)
    }
}

/// The title found in a piece of extracted header text.
pub fn sanitize_title(raw: &str) -> (r: String)
    ensures
        r@ == header_title(raw@),
{
    let v = chars_of(raw);
    let t = header_title_of(v.as_slice());
    string_of(t.as_slice())
}


// ---------------------------------------------------------------------------
// File names
// ---------------------------------------------------------------------------

/// `sanitize_filename::sanitize`: the name with the characters that file
/// systems refuse removed, named for its result.
pub uninterp spec fn sanitized_file_name(s: Seq<char>) -> Seq<char>;

/// Characters that `sanitize_filename` removes wherever they stand.
pub open spec fn is_file_name_illegal(c: char) -> bool {
    c == '/' || c == '?' || c == '<' || c == '>' || c == '\\' || c == ':' || c == '*' || c == '|'
        || c == '"' || (c as u32) <= 0x1f || (0x80 <= (c as u32) && (c as u32) <= 0x9f)
}

/// Calls `sanitize_filename::sanitize`; the result is named
/// `sanitized_file_name`. The crate removes every match of its illegal and
/// control character classes, so none is left in the result.
#[verifier::external_body]
pub(crate) fn sanitize_file_name(s: &str) -> (r: String)
    ensures
        r@ == sanitized_file_name(s@),
        forall|i: int| 0 <= i < r@.len() ==> !is_file_name_illegal(#[trigger] r@[i]),
{
    sanitize_filename::sanitize(s)
}

/// A name fit for the restructured library: sanitized, spaces as `_`,
/// slashes as `-`, no surrounding underscores, at most 60 characters;
/// `unknown` for an empty or `UNKNOWN` name.
pub open spec fn slug(s: Seq<char>) -> Seq<char> {
    let a = sanitized_file_name(trim(s));
    let b = a.map_values(|c: char| if c == ' ' { '_' } else if c == '/' { '-' } else { c });
    let c = strip(b, CharClass::Exactly('_'));
    if c.len() == 0 || c == "UNKNOWN"@ {
        "unknown"@
    } else if c.len() > 60 {
        c.take(60)
    } else {
        c
    }
}

pub fn slugify(s: &str) -> (r: String)
    ensures
        r@ == slug(s@),
{
    let v = chars_of(s);
    let t = trim_of(v.as_slice());
    let ts = string_of(t.as_slice());
    let a = sanitize_file_name(ts.as_str());
    let av = chars_of(a.as_str());
    let mut b: Vec<char> = Vec::new();
    let mut i: usize = 0;
    while i < av.len()
        invariant
            i <= av@.len(),
            b@ == av@.take(i as int).map_values(
                |c: char| if c == ' ' { '_' } else if c == '/' { '-' } else { c },
            ),
        decreases av@.len() - i,
    {
        let c = av[i];
        let d = if c == ' ' {
            '_'
        } else if c == '/' {
            '-'
        } else {
            c
        };
        b.push(d);
        assert(av@.take(i + 1).map_values(
            |c: char| if c == ' ' { '_' } else if c == '/' { '-' } else { c },
        ) =~= av@.take(i as int).map_values(
            |c: char| if c == ' ' { '_' } else if c == '/' { '-' } else { c },
        ).push(d));
        i = i + 1;
    }
    assert(av@.take(av@.len() as int) =~= av@);
    let c = strip_of(b.as_slice(), CharClass::Exactly('_'));
    let unknown_upper = chars_of("UNKNOWN");
    if c.len() == 0 || same(c.as_slice(), unknown_upper.as_slice()) {
        owned("unknown")
    } else {
        let t = take_chars(c.as_slice(), 60);
        string_of(t.as_slice())
    }
}

// ---------------------------------------------------------------------------
// Classification
// ---------------------------------------------------------------------------

fn mentions(s: &Vec<char>, pat: &str) -> (b: bool)
    ensures
        b == contains(s@, pat@),
{
    let p = chars_of(pat);
    contains_in(s.as_slice(), p.as_slice())
}

/// The department a course belongs to, from its code (upper-cased), its
/// title and its file path (lower-cased).
pub open spec fn department_of(code: Seq<char>, title: Seq<char>, path: Seq<char>) -> Seq<char> {
    let c = uppercase(code);
    let t = lowercase(title);
    let p = lowercase(path);
    if contains(c, "CSE"@)
        || contains(c, "CSC"@)
        || contains(c, "CSA"@)
        || contains(c, "CS6"@)
        || contains(c, "CS7"@)
        || contains(c, "CS8"@)
        || contains(c, "CYS"@)
        || contains(c, "AIE"@)
        || contains(c, "CCE"@)
        || contains(c, "CA3"@)
        || contains(c, "CA4"@)
        || contains(t, "computer"@)
        || contains(t, "software"@)
        || contains(t, "data structure"@)
        || contains(t, "algorithm"@)
        || contains(t, "cyber"@)
        || contains(t, "database"@) {
        "Computer Science & Engineering"@
    } else if contains(c, "ECE"@)
        || contains(c, "ELC"@)
        || contains(c, "EIE"@)
        || contains(c, "VL6"@)
        || contains(c, "VL7"@)
        || contains(c, "VL8"@)
        || contains(c, "EC1"@)
        || contains(c, "EC2"@)
        || contains(c, "EC8"@)
        || contains(t, "electronics"@)
        || contains(t, "signal"@)
        || contains(t, "vlsi"@)
        || contains(t, "embedded"@) {
        "Electronics & Communication"@
    } else if contains(c, "EEE"@)
        || contains(c, "AEE"@)
        || contains(c, "ES6"@)
        || contains(c, "PE6"@)
        || contains(c, "PE7"@)
        || contains(c, "CIE"@)
        || contains(c, "RE7"@)
        || contains(t, "electrical"@)
        || contains(t, "power"@)
        || contains(t, "high voltage"@) {
        "Electrical & Electronics"@
    } else if contains(c, "MEC"@)
        || contains(c, "MEE"@)
        || contains(c, "AES"@)
        || contains(c, "AT6"@)
        || contains(c, "ME7"@)
        || contains(c, "ME8"@)
        || contains(c, "WME"@)
        || contains(t, "mechanical"@)
        || contains(t, "thermal"@)
        || contains(t, "combustion"@)
        || contains(t, "automotive"@) {
        "Mechanical & Aerospace"@
    } else if contains(c, "CVL"@)
        || contains(c, "CE7"@)
        || contains(c, "CEN"@)
        || contains(c, "ED6"@)
        || contains(c, "SC7"@)
        || contains(t, "civil"@)
        || contains(t, "structural"@) {
        "Civil Engineering"@
    } else if contains(c, "CHE"@)
        || contains(c, "CH6"@)
        || contains(c, "SC6"@)
        || contains(t, "chemical engineering"@) {
        "Chemical Engineering"@
    } else if contains(c, "MAT"@)
        || contains(c, "MA6"@)
        || contains(c, "MA7"@)
        || contains(c, "MA8"@)
        || contains(c, "MA9"@)
        || contains(c, "MAL"@)
        || contains(t, "mathematics"@)
        || contains(t, "calculus"@)
        || contains(t, "algebra"@)
        || contains(t, "statistic"@) {
        "Mathematics & Statistics"@
    } else if contains(c, "PHY"@)
        || contains(c, "PH6"@)
        || contains(c, "PH7"@)
        || contains(t, "physics"@) {
        "Physical Sciences"@
    } else if contains(c, "CHY"@)
        || contains(c, "CY6"@)
        || contains(c, "CY7"@)
        || contains(c, "CY4"@)
        || contains(t, "chemistry"@) {
        "Chemical Sciences"@
    } else if contains(c, "BIO"@)
        || contains(c, "BM6"@)
        || contains(c, "BM7"@)
        || contains(c, "BM8"@)
        || contains(c, "BMT"@)
        || contains(c, "HOR"@)
        || contains(c, "GPB"@)
        || contains(c, "SS8"@)
        || contains(t, "bio"@)
        || contains(t, "medical"@) {
        "Biotechnology & Health"@
    } else if contains(c, "CMJ"@)
        || contains(c, "COM"@)
        || contains(c, "DDA"@)
        || contains(t, "media"@)
        || contains(t, "journalism"@)
        || contains(t, "communication"@) {
        "Media & Communication"@
    } else if contains(c, "HUM"@)
        || contains(c, "ELL"@)
        || contains(c, "ENG"@)
        || contains(c, "TAM"@)
        || contains(c, "GER"@)
        || contains(c, "FRE"@)
        || contains(c, "MAL"@)
        || contains(c, "FSN"@)
        || contains(c, "SOC"@)
        || contains(c, "SWK"@)
        || contains(c, "SW"@)
        || contains(p, "social work"@)
        || contains(t, "english"@)
        || contains(t, "social"@)
        || contains(t, "culture"@) {
        "Humanities & Social Sciences"@
    } else {
        "General & Interdisciplinary"@
    }
}

/// Parts of a course code that mark Computer Science & Engineering.
pub open spec fn computer_science_codes() -> Seq<Seq<char>> {
    seq!["CSE"@, "CSC"@, "CSA"@, "CS6"@, "CS7"@, "CS8"@, "CYS"@, "AIE"@, "CCE"@, "CA3"@, "CA4"@]
}

/// Words of a title that mark Computer Science & Engineering.
pub open spec fn computer_science_words() -> Seq<Seq<char>> {
    seq!["computer"@, "software"@, "data structure"@, "algorithm"@, "cyber"@, "database"@]
}

/// Parts of a course code that mark Electronics & Communication.
pub open spec fn electronics_codes() -> Seq<Seq<char>> {
    seq!["ECE"@, "ELC"@, "EIE"@, "VL6"@, "VL7"@, "VL8"@, "EC1"@, "EC2"@, "EC8"@]
}

/// Words of a title that mark Electronics & Communication.
pub open spec fn electronics_words() -> Seq<Seq<char>> {
    seq!["electronics"@, "signal"@, "vlsi"@, "embedded"@]
}

/// `s` holds one of the marks in `marks`.
pub open spec fn holds_any(s: Seq<char>, marks: Seq<Seq<char>>) -> bool {
    exists|j: int| 0 <= j < marks.len() && contains(s, #[trigger] marks[j])
}

/// The course is marked as Computer Science by its upper-cased code or
/// lower-cased title.
pub open spec fn marked_computer_science(code: Seq<char>, title: Seq<char>) -> bool {
    holds_any(uppercase(code), computer_science_codes()) || holds_any(
        lowercase(title),
        computer_science_words(),
    )
}

/// The course is marked as Electronics by its upper-cased code or
/// lower-cased title.
pub open spec fn marked_electronics(code: Seq<char>, title: Seq<char>) -> bool {
    holds_any(uppercase(code), electronics_codes()) || holds_any(lowercase(title), electronics_words())
}

proof fn lemma_not_computer_science(code: Seq<char>, title: Seq<char>)
    requires
        !marked_computer_science(code, title),
    ensures
        !contains(uppercase(code), "CSE"@),
        !contains(uppercase(code), "CSC"@),
        !contains(uppercase(code), "CSA"@),
        !contains(uppercase(code), "CS6"@),
        !contains(uppercase(code), "CS7"@),
        !contains(uppercase(code), "CS8"@),
        !contains(uppercase(code), "CYS"@),
        !contains(uppercase(code), "AIE"@),
        !contains(uppercase(code), "CCE"@),
        !contains(uppercase(code), "CA3"@),
        !contains(uppercase(code), "CA4"@),
        !contains(lowercase(title), "computer"@),
        !contains(lowercase(title), "software"@),
        !contains(lowercase(title), "data structure"@),
        !contains(lowercase(title), "algorithm"@),
        !contains(lowercase(title), "cyber"@),
        !contains(lowercase(title), "database"@),
{
    let c = uppercase(code);
    let t = lowercase(title);
    assert(computer_science_codes()[0] == "CSE"@);
    assert(computer_science_codes()[1] == "CSC"@);
    assert(computer_science_codes()[2] == "CSA"@);
    assert(computer_science_codes()[3] == "CS6"@);
    assert(computer_science_codes()[4] == "CS7"@);
    assert(computer_science_codes()[5] == "CS8"@);
    assert(computer_science_codes()[6] == "CYS"@);
    assert(computer_science_codes()[7] == "AIE"@);
    assert(computer_science_codes()[8] == "CCE"@);
    assert(computer_science_codes()[9] == "CA3"@);
    assert(computer_science_codes()[10] == "CA4"@);
    assert(!contains(c, computer_science_codes()[0]));
    assert(!contains(c, computer_science_codes()[1]));
    assert(!contains(c, computer_science_codes()[2]));
    assert(!contains(c, computer_science_codes()[3]));
    assert(!contains(c, computer_science_codes()[4]));
    assert(!contains(c, computer_science_codes()[5]));
    assert(!contains(c, computer_science_codes()[6]));
    assert(!contains(c, computer_science_codes()[7]));
    assert(!contains(c, computer_science_codes()[8]));
    assert(!contains(c, computer_science_codes()[9]));
    assert(!contains(c, computer_science_codes()[10]));
    assert(computer_science_words()[0] == "computer"@);
    assert(computer_science_words()[1] == "software"@);
    assert(computer_science_words()[2] == "data structure"@);
    assert(computer_science_words()[3] == "algorithm"@);
    assert(computer_science_words()[4] == "cyber"@);
    assert(computer_science_words()[5] == "database"@);
    assert(!contains(t, computer_science_words()[0]));
    assert(!contains(t, computer_science_words()[1]));
    assert(!contains(t, computer_science_words()[2]));
    assert(!contains(t, computer_science_words()[3]));
    assert(!contains(t, computer_science_words()[4]));
    assert(!contains(t, computer_science_words()[5]));
}

proof fn lemma_computer_science_marked(code: Seq<char>, title: Seq<char>)
    requires
        marked_computer_science(code, title),
    ensures
        contains(uppercase(code), "CSE"@) || contains(uppercase(code), "CSC"@) || contains(uppercase(code), "CSA"@) || contains(uppercase(code), "CS6"@) || contains(uppercase(code), "CS7"@) || contains(uppercase(code), "CS8"@) || contains(uppercase(code), "CYS"@) || contains(uppercase(code), "AIE"@) || contains(uppercase(code), "CCE"@) || contains(uppercase(code), "CA3"@) || contains(uppercase(code), "CA4"@) || contains(lowercase(title), "computer"@) || contains(lowercase(title), "software"@) || contains(lowercase(title), "data structure"@) || contains(lowercase(title), "algorithm"@) || contains(lowercase(title), "cyber"@) || contains(lowercase(title), "database"@),
{
    let c = uppercase(code);
    let t = lowercase(title);
    assert(computer_science_codes()[0] == "CSE"@);
    assert(computer_science_codes()[1] == "CSC"@);
    assert(computer_science_codes()[2] == "CSA"@);
    assert(computer_science_codes()[3] == "CS6"@);
    assert(computer_science_codes()[4] == "CS7"@);
    assert(computer_science_codes()[5] == "CS8"@);
    assert(computer_science_codes()[6] == "CYS"@);
    assert(computer_science_codes()[7] == "AIE"@);
    assert(computer_science_codes()[8] == "CCE"@);
    assert(computer_science_codes()[9] == "CA3"@);
    assert(computer_science_codes()[10] == "CA4"@);
    assert(computer_science_words()[0] == "computer"@);
    assert(computer_science_words()[1] == "software"@);
    assert(computer_science_words()[2] == "data structure"@);
    assert(computer_science_words()[3] == "algorithm"@);
    assert(computer_science_words()[4] == "cyber"@);
    assert(computer_science_words()[5] == "database"@);
    if holds_any(c, computer_science_codes()) {
        let j = choose|j: int| 0 <= j < computer_science_codes().len() && contains(c, #[trigger] computer_science_codes()[j]);
        if j == 0 {
            assert(contains(c, "CSE"@));
        }
        if j == 1 {
            assert(contains(c, "CSC"@));
        }
        if j == 2 {
            assert(contains(c, "CSA"@));
        }
        if j == 3 {
            assert(contains(c, "CS6"@));
        }
        if j == 4 {
            assert(contains(c, "CS7"@));
        }
        if j == 5 {
            assert(contains(c, "CS8"@));
        }
        if j == 6 {
            assert(contains(c, "CYS"@));
        }
        if j == 7 {
            assert(contains(c, "AIE"@));
        }
        if j == 8 {
            assert(contains(c, "CCE"@));
        }
        if j == 9 {
            assert(contains(c, "CA3"@));
        }
        if j == 10 {
            assert(contains(c, "CA4"@));
        }
    } else {
        let j = choose|j: int| 0 <= j < computer_science_words().len() && contains(t, #[trigger] computer_science_words()[j]);
        if j == 0 {
            assert(contains(t, "computer"@));
        }
        if j == 1 {
            assert(contains(t, "software"@));
        }
        if j == 2 {
            assert(contains(t, "data structure"@));
        }
        if j == 3 {
            assert(contains(t, "algorithm"@));
        }
        if j == 4 {
            assert(contains(t, "cyber"@));
        }
        if j == 5 {
            assert(contains(t, "database"@));
        }
    }
}

proof fn lemma_electronics_marked(code: Seq<char>, title: Seq<char>)
    requires
        marked_electronics(code, title),
    ensures
        contains(uppercase(code), "ECE"@) || contains(uppercase(code), "ELC"@) || contains(uppercase(code), "EIE"@) || contains(uppercase(code), "VL6"@) || contains(uppercase(code), "VL7"@) || contains(uppercase(code), "VL8"@) || contains(uppercase(code), "EC1"@) || contains(uppercase(code), "EC2"@) || contains(uppercase(code), "EC8"@) || contains(lowercase(title), "electronics"@) || contains(lowercase(title), "signal"@) || contains(lowercase(title), "vlsi"@) || contains(lowercase(title), "embedded"@),
{
    let c = uppercase(code);
    let t = lowercase(title);
    assert(electronics_codes()[0] == "ECE"@);
    assert(electronics_codes()[1] == "ELC"@);
    assert(electronics_codes()[2] == "EIE"@);
    assert(electronics_codes()[3] == "VL6"@);
    assert(electronics_codes()[4] == "VL7"@);
    assert(electronics_codes()[5] == "VL8"@);
    assert(electronics_codes()[6] == "EC1"@);
    assert(electronics_codes()[7] == "EC2"@);
    assert(electronics_codes()[8] == "EC8"@);
    assert(electronics_words()[0] == "electronics"@);
    assert(electronics_words()[1] == "signal"@);
    assert(electronics_words()[2] == "vlsi"@);
    assert(electronics_words()[3] == "embedded"@);
    if holds_any(c, electronics_codes()) {
        let j = choose|j: int| 0 <= j < electronics_codes().len() && contains(c, #[trigger] electronics_codes()[j]);
        if j == 0 {
            assert(contains(c, "ECE"@));
        }
        if j == 1 {
            assert(contains(c, "ELC"@));
        }
        if j == 2 {
            assert(contains(c, "EIE"@));
        }
        if j == 3 {
            assert(contains(c, "VL6"@));
        }
        if j == 4 {
            assert(contains(c, "VL7"@));
        }
        if j == 5 {
            assert(contains(c, "VL8"@));
        }
        if j == 6 {
            assert(contains(c, "EC1"@));
        }
        if j == 7 {
            assert(contains(c, "EC2"@));
        }
        if j == 8 {
            assert(contains(c, "EC8"@));
        }
    } else {
        let j = choose|j: int| 0 <= j < electronics_words().len() && contains(t, #[trigger] electronics_words()[j]);
        if j == 0 {
            assert(contains(t, "electronics"@));
        }
        if j == 1 {
            assert(contains(t, "signal"@));
        }
        if j == 2 {
            assert(contains(t, "vlsi"@));
        }
        if j == 3 {
            assert(contains(t, "embedded"@));
        }
    }
}

proof fn lemma_marked_computer_science(code: Seq<char>, title: Seq<char>)
    requires
        contains(uppercase(code), "CSE"@) || contains(uppercase(code), "CSC"@) || contains(uppercase(code), "CSA"@) || contains(uppercase(code), "CS6"@) || contains(uppercase(code), "CS7"@) || contains(uppercase(code), "CS8"@) || contains(uppercase(code), "CYS"@) || contains(uppercase(code), "AIE"@) || contains(uppercase(code), "CCE"@) || contains(uppercase(code), "CA3"@) || contains(uppercase(code), "CA4"@) || contains(lowercase(title), "computer"@) || contains(lowercase(title), "software"@) || contains(lowercase(title), "data structure"@) || contains(lowercase(title), "algorithm"@) || contains(lowercase(title), "cyber"@) || contains(lowercase(title), "database"@),
    ensures
        marked_computer_science(code, title),
{
    let c = uppercase(code);
    let t = lowercase(title);
    assert(computer_science_codes()[0] == "CSE"@);
    assert(computer_science_codes()[1] == "CSC"@);
    assert(computer_science_codes()[2] == "CSA"@);
    assert(computer_science_codes()[3] == "CS6"@);
    assert(computer_science_codes()[4] == "CS7"@);
    assert(computer_science_codes()[5] == "CS8"@);
    assert(computer_science_codes()[6] == "CYS"@);
    assert(computer_science_codes()[7] == "AIE"@);
    assert(computer_science_codes()[8] == "CCE"@);
    assert(computer_science_codes()[9] == "CA3"@);
    assert(computer_science_codes()[10] == "CA4"@);
    assert(computer_science_words()[0] == "computer"@);
    assert(computer_science_words()[1] == "software"@);
    assert(computer_science_words()[2] == "data structure"@);
    assert(computer_science_words()[3] == "algorithm"@);
    assert(computer_science_words()[4] == "cyber"@);
    assert(computer_science_words()[5] == "database"@);
    if contains(c, "CSE"@) {
        assert(contains(c, computer_science_codes()[0]));
    }
    if contains(c, "CSC"@) {
        assert(contains(c, computer_science_codes()[1]));
    }
    if contains(c, "CSA"@) {
        assert(contains(c, computer_science_codes()[2]));
    }
    if contains(c, "CS6"@) {
        assert(contains(c, computer_science_codes()[3]));
    }
    if contains(c, "CS7"@) {
        assert(contains(c, computer_science_codes()[4]));
    }
    if contains(c, "CS8"@) {
        assert(contains(c, computer_science_codes()[5]));
    }
    if contains(c, "CYS"@) {
        assert(contains(c, computer_science_codes()[6]));
    }
    if contains(c, "AIE"@) {
        assert(contains(c, computer_science_codes()[7]));
    }
    if contains(c, "CCE"@) {
        assert(contains(c, computer_science_codes()[8]));
    }
    if contains(c, "CA3"@) {
        assert(contains(c, computer_science_codes()[9]));
    }
    if contains(c, "CA4"@) {
        assert(contains(c, computer_science_codes()[10]));
    }
    if contains(t, "computer"@) {
        assert(contains(t, computer_science_words()[0]));
    }
    if contains(t, "software"@) {
        assert(contains(t, computer_science_words()[1]));
    }
    if contains(t, "data structure"@) {
        assert(contains(t, computer_science_words()[2]));
    }
    if contains(t, "algorithm"@) {
        assert(contains(t, computer_science_words()[3]));
    }
    if contains(t, "cyber"@) {
        assert(contains(t, computer_science_words()[4]));
    }
    if contains(t, "database"@) {
        assert(contains(t, computer_science_words()[5]));
    }
}

proof fn lemma_marked_electronics(code: Seq<char>, title: Seq<char>)
    requires
        contains(uppercase(code), "ECE"@) || contains(uppercase(code), "ELC"@) || contains(uppercase(code), "EIE"@) || contains(uppercase(code), "VL6"@) || contains(uppercase(code), "VL7"@) || contains(uppercase(code), "VL8"@) || contains(uppercase(code), "EC1"@) || contains(uppercase(code), "EC2"@) || contains(uppercase(code), "EC8"@) || contains(lowercase(title), "electronics"@) || contains(lowercase(title), "signal"@) || contains(lowercase(title), "vlsi"@) || contains(lowercase(title), "embedded"@),
    ensures
        marked_electronics(code, title),
{
    let c = uppercase(code);
    let t = lowercase(title);
    assert(electronics_codes()[0] == "ECE"@);
    assert(electronics_codes()[1] == "ELC"@);
    assert(electronics_codes()[2] == "EIE"@);
    assert(electronics_codes()[3] == "VL6"@);
    assert(electronics_codes()[4] == "VL7"@);
    assert(electronics_codes()[5] == "VL8"@);
    assert(electronics_codes()[6] == "EC1"@);
    assert(electronics_codes()[7] == "EC2"@);
    assert(electronics_codes()[8] == "EC8"@);
    assert(electronics_words()[0] == "electronics"@);
    assert(electronics_words()[1] == "signal"@);
    assert(electronics_words()[2] == "vlsi"@);
    assert(electronics_words()[3] == "embedded"@);
    if contains(c, "ECE"@) {
        assert(contains(c, electronics_codes()[0]));
    }
    if contains(c, "ELC"@) {
        assert(contains(c, electronics_codes()[1]));
    }
    if contains(c, "EIE"@) {
        assert(contains(c, electronics_codes()[2]));
    }
    if contains(c, "VL6"@) {
        assert(contains(c, electronics_codes()[3]));
    }
    if contains(c, "VL7"@) {
        assert(contains(c, electronics_codes()[4]));
    }
    if contains(c, "VL8"@) {
        assert(contains(c, electronics_codes()[5]));
    }
    if contains(c, "EC1"@) {
        assert(contains(c, electronics_codes()[6]));
    }
    if contains(c, "EC2"@) {
        assert(contains(c, electronics_codes()[7]));
    }
    if contains(c, "EC8"@) {
        assert(contains(c, electronics_codes()[8]));
    }
    if contains(t, "electronics"@) {
        assert(contains(t, electronics_words()[0]));
    }
    if contains(t, "signal"@) {
        assert(contains(t, electronics_words()[1]));
    }
    if contains(t, "vlsi"@) {
        assert(contains(t, electronics_words()[2]));
    }
    if contains(t, "embedded"@) {
        assert(contains(t, electronics_words()[3]));
    }
}

/// A course marked as Computer Science by its code or title is filed under
/// Computer Science & Engineering. One marked as Electronics (a code holding
/// `ECE`, `ELC`, `EIE`, `VL6`/`VL7`/`VL8` or `EC1`/`EC2`/`EC8`, or a title
/// about electronics, signals, VLSI or embedded systems) and not as Computer
/// Science is filed under Electronics & Communication, and only such a
/// course is; the path plays no part in either.
pub proof fn electronics_courses_are_filed_as_electronics(code: Seq<char>, title: Seq<char>, path: Seq<char>)
    ensures
        marked_computer_science(code, title) ==> department_of(code, title, path)
            == "Computer Science & Engineering"@,
        !marked_computer_science(code, title) && marked_electronics(code, title) ==> department_of(
            code,
            title,
            path,
        ) == "Electronics & Communication"@,
        department_of(code, title, path) == "Electronics & Communication"@ ==> !marked_computer_science(
            code,
            title,
        ) && marked_electronics(code, title),
{
    if marked_computer_science(code, title) {
        lemma_computer_science_marked(code, title);
    } else {
        lemma_not_computer_science(code, title);
        if marked_electronics(code, title) {
            lemma_electronics_marked(code, title);
        }
    }
    reveal_strlit("Electronics & Communication");
    assert("Electronics & Communication"@.len() == 27);
    reveal_strlit("Computer Science & Engineering");
    assert("Computer Science & Engineering"@.len() == 30);
    assert("Computer Science & Engineering"@ != "Electronics & Communication"@);
    reveal_strlit("Electrical & Electronics");
    assert("Electrical & Electronics"@.len() == 24);
    assert("Electrical & Electronics"@ != "Electronics & Communication"@);
    reveal_strlit("Mechanical & Aerospace");
    assert("Mechanical & Aerospace"@.len() == 22);
    assert("Mechanical & Aerospace"@ != "Electronics & Communication"@);
    reveal_strlit("Civil Engineering");
    assert("Civil Engineering"@.len() == 17);
    assert("Civil Engineering"@ != "Electronics & Communication"@);
    reveal_strlit("Chemical Engineering");
    assert("Chemical Engineering"@.len() == 20);
    assert("Chemical Engineering"@ != "Electronics & Communication"@);
    reveal_strlit("Mathematics & Statistics");
    assert("Mathematics & Statistics"@.len() == 24);
    assert("Mathematics & Statistics"@ != "Electronics & Communication"@);
    reveal_strlit("Physical Sciences");
    assert("Physical Sciences"@.len() == 17);
    assert("Physical Sciences"@ != "Electronics & Communication"@);
    reveal_strlit("Chemical Sciences");
    assert("Chemical Sciences"@.len() == 17);
    assert("Chemical Sciences"@ != "Electronics & Communication"@);
    reveal_strlit("Biotechnology & Health");
    assert("Biotechnology & Health"@.len() == 22);
    assert("Biotechnology & Health"@ != "Electronics & Communication"@);
    reveal_strlit("Media & Communication");
    assert("Media & Communication"@.len() == 21);
    assert("Media & Communication"@ != "Electronics & Communication"@);
    reveal_strlit("Humanities & Social Sciences");
    assert("Humanities & Social Sciences"@.len() == 28);
    assert("Humanities & Social Sciences"@ != "Electronics & Communication"@);
    reveal_strlit("General & Interdisciplinary");
    assert("General & Interdisciplinary"@.len() == 27);
    assert("General & Interdisciplinary"@[0] == 'G');
    assert("Electronics & Communication"@[0] == 'E');
    assert("General & Interdisciplinary"@ != "Electronics & Communication"@);
    if department_of(code, title, path) == "Electronics & Communication"@ {
        if marked_computer_science(code, title) {
            lemma_computer_science_marked(code, title);
        }
        lemma_marked_electronics(code, title);
    }
}

/// The course is marked as Computer Science & Engineering by its code, title or path.
pub open spec fn marks_computer_science(code: Seq<char>, title: Seq<char>, path: Seq<char>) -> bool {
    holds_any(uppercase(code), computer_science_codes()) || holds_any(lowercase(title), computer_science_words())
}

proof fn lemma_unmarked_computer_science(code: Seq<char>, title: Seq<char>, path: Seq<char>)
    requires
        !marks_computer_science(code, title, path),
    ensures
        !contains(uppercase(code), "CSE"@),
        !contains(uppercase(code), "CSC"@),
        !contains(uppercase(code), "CSA"@),
        !contains(uppercase(code), "CS6"@),
        !contains(uppercase(code), "CS7"@),
        !contains(uppercase(code), "CS8"@),
        !contains(uppercase(code), "CYS"@),
        !contains(uppercase(code), "AIE"@),
        !contains(uppercase(code), "CCE"@),
        !contains(uppercase(code), "CA3"@),
        !contains(uppercase(code), "CA4"@),
        !contains(lowercase(title), "computer"@),
        !contains(lowercase(title), "software"@),
        !contains(lowercase(title), "data structure"@),
        !contains(lowercase(title), "algorithm"@),
        !contains(lowercase(title), "cyber"@),
        !contains(lowercase(title), "database"@),
{
    assert(computer_science_codes()[0] == "CSE"@);
    assert(!contains(uppercase(code), computer_science_codes()[0]));
    assert(computer_science_codes()[1] == "CSC"@);
    assert(!contains(uppercase(code), computer_science_codes()[1]));
    assert(computer_science_codes()[2] == "CSA"@);
    assert(!contains(uppercase(code), computer_science_codes()[2]));
    assert(computer_science_codes()[3] == "CS6"@);
    assert(!contains(uppercase(code), computer_science_codes()[3]));
    assert(computer_science_codes()[4] == "CS7"@);
    assert(!contains(uppercase(code), computer_science_codes()[4]));
    assert(computer_science_codes()[5] == "CS8"@);
    assert(!contains(uppercase(code), computer_science_codes()[5]));
    assert(computer_science_codes()[6] == "CYS"@);
    assert(!contains(uppercase(code), computer_science_codes()[6]));
    assert(computer_science_codes()[7] == "AIE"@);
    assert(!contains(uppercase(code), computer_science_codes()[7]));
    assert(computer_science_codes()[8] == "CCE"@);
    assert(!contains(uppercase(code), computer_science_codes()[8]));
    assert(computer_science_codes()[9] == "CA3"@);
    assert(!contains(uppercase(code), computer_science_codes()[9]));
    assert(computer_science_codes()[10] == "CA4"@);
    assert(!contains(uppercase(code), computer_science_codes()[10]));
    assert(computer_science_words()[0] == "computer"@);
    assert(!contains(lowercase(title), computer_science_words()[0]));
    assert(computer_science_words()[1] == "software"@);
    assert(!contains(lowercase(title), computer_science_words()[1]));
    assert(computer_science_words()[2] == "data structure"@);
    assert(!contains(lowercase(title), computer_science_words()[2]));
    assert(computer_science_words()[3] == "algorithm"@);
    assert(!contains(lowercase(title), computer_science_words()[3]));
    assert(computer_science_words()[4] == "cyber"@);
    assert(!contains(lowercase(title), computer_science_words()[4]));
    assert(computer_science_words()[5] == "database"@);
    assert(!contains(lowercase(title), computer_science_words()[5]));
}

proof fn lemma_some_mark_of_computer_science(code: Seq<char>, title: Seq<char>, path: Seq<char>)
    requires
        marks_computer_science(code, title, path),
    ensures
        contains(uppercase(code), "CSE"@) || contains(uppercase(code), "CSC"@) || contains(uppercase(code), "CSA"@) || contains(uppercase(code), "CS6"@) || contains(uppercase(code), "CS7"@) || contains(uppercase(code), "CS8"@) || contains(uppercase(code), "CYS"@) || contains(uppercase(code), "AIE"@) || contains(uppercase(code), "CCE"@) || contains(uppercase(code), "CA3"@) || contains(uppercase(code), "CA4"@) || contains(lowercase(title), "computer"@) || contains(lowercase(title), "software"@) || contains(lowercase(title), "data structure"@) || contains(lowercase(title), "algorithm"@) || contains(lowercase(title), "cyber"@) || contains(lowercase(title), "database"@),
{
    assert(computer_science_codes()[0] == "CSE"@);
    assert(computer_science_codes()[1] == "CSC"@);
    assert(computer_science_codes()[2] == "CSA"@);
    assert(computer_science_codes()[3] == "CS6"@);
    assert(computer_science_codes()[4] == "CS7"@);
    assert(computer_science_codes()[5] == "CS8"@);
    assert(computer_science_codes()[6] == "CYS"@);
    assert(computer_science_codes()[7] == "AIE"@);
    assert(computer_science_codes()[8] == "CCE"@);
    assert(computer_science_codes()[9] == "CA3"@);
    assert(computer_science_codes()[10] == "CA4"@);
    if holds_any(uppercase(code), computer_science_codes()) {
        let j = choose|j: int| 0 <= j < computer_science_codes().len() && contains(uppercase(code), #[trigger] computer_science_codes()[j]);
        if j == 0 {
            assert(contains(uppercase(code), "CSE"@));
        }
        if j == 1 {
            assert(contains(uppercase(code), "CSC"@));
        }
        if j == 2 {
            assert(contains(uppercase(code), "CSA"@));
        }
        if j == 3 {
            assert(contains(uppercase(code), "CS6"@));
        }
        if j == 4 {
            assert(contains(uppercase(code), "CS7"@));
        }
        if j == 5 {
            assert(contains(uppercase(code), "CS8"@));
        }
        if j == 6 {
            assert(contains(uppercase(code), "CYS"@));
        }
        if j == 7 {
            assert(contains(uppercase(code), "AIE"@));
        }
        if j == 8 {
            assert(contains(uppercase(code), "CCE"@));
        }
        if j == 9 {
            assert(contains(uppercase(code), "CA3"@));
        }
        if j == 10 {
            assert(contains(uppercase(code), "CA4"@));
        }
    }
    assert(computer_science_words()[0] == "computer"@);
    assert(computer_science_words()[1] == "software"@);
    assert(computer_science_words()[2] == "data structure"@);
    assert(computer_science_words()[3] == "algorithm"@);
    assert(computer_science_words()[4] == "cyber"@);
    assert(computer_science_words()[5] == "database"@);
    if holds_any(lowercase(title), computer_science_words()) {
        let j = choose|j: int| 0 <= j < computer_science_words().len() && contains(lowercase(title), #[trigger] computer_science_words()[j]);
        if j == 0 {
            assert(contains(lowercase(title), "computer"@));
        }
        if j == 1 {
            assert(contains(lowercase(title), "software"@));
        }
        if j == 2 {
            assert(contains(lowercase(title), "data structure"@));
        }
        if j == 3 {
            assert(contains(lowercase(title), "algorithm"@));
        }
        if j == 4 {
            assert(contains(lowercase(title), "cyber"@));
        }
        if j == 5 {
            assert(contains(lowercase(title), "database"@));
        }
    }
}

/// The course is marked as Electronics & Communication by its code, title or path.
pub open spec fn marks_electronics(code: Seq<char>, title: Seq<char>, path: Seq<char>) -> bool {
    holds_any(uppercase(code), electronics_codes()) || holds_any(lowercase(title), electronics_words())
}

proof fn lemma_unmarked_electronics(code: Seq<char>, title: Seq<char>, path: Seq<char>)
    requires
        !marks_electronics(code, title, path),
    ensures
        !contains(uppercase(code), "ECE"@),
        !contains(uppercase(code), "ELC"@),
        !contains(uppercase(code), "EIE"@),
        !contains(uppercase(code), "VL6"@),
        !contains(uppercase(code), "VL7"@),
        !contains(uppercase(code), "VL8"@),
        !contains(uppercase(code), "EC1"@),
        !contains(uppercase(code), "EC2"@),
        !contains(uppercase(code), "EC8"@),
        !contains(lowercase(title), "electronics"@),
        !contains(lowercase(title), "signal"@),
        !contains(lowercase(title), "vlsi"@),
        !contains(lowercase(title), "embedded"@),
{
    assert(electronics_codes()[0] == "ECE"@);
    assert(!contains(uppercase(code), electronics_codes()[0]));
    assert(electronics_codes()[1] == "ELC"@);
    assert(!contains(uppercase(code), electronics_codes()[1]));
    assert(electronics_codes()[2] == "EIE"@);
    assert(!contains(uppercase(code), electronics_codes()[2]));
    assert(electronics_codes()[3] == "VL6"@);
    assert(!contains(uppercase(code), electronics_codes()[3]));
    assert(electronics_codes()[4] == "VL7"@);
    assert(!contains(uppercase(code), electronics_codes()[4]));
    assert(electronics_codes()[5] == "VL8"@);
    assert(!contains(uppercase(code), electronics_codes()[5]));
    assert(electronics_codes()[6] == "EC1"@);
    assert(!contains(uppercase(code), electronics_codes()[6]));
    assert(electronics_codes()[7] == "EC2"@);
    assert(!contains(uppercase(code), electronics_codes()[7]));
    assert(electronics_codes()[8] == "EC8"@);
    assert(!contains(uppercase(code), electronics_codes()[8]));
    assert(electronics_words()[0] == "electronics"@);
    assert(!contains(lowercase(title), electronics_words()[0]));
    assert(electronics_words()[1] == "signal"@);
    assert(!contains(lowercase(title), electronics_words()[1]));
    assert(electronics_words()[2] == "vlsi"@);
    assert(!contains(lowercase(title), electronics_words()[2]));
    assert(electronics_words()[3] == "embedded"@);
    assert(!contains(lowercase(title), electronics_words()[3]));
}

proof fn lemma_some_mark_of_electronics(code: Seq<char>, title: Seq<char>, path: Seq<char>)
    requires
        marks_electronics(code, title, path),
    ensures
        contains(uppercase(code), "ECE"@) || contains(uppercase(code), "ELC"@) || contains(uppercase(code), "EIE"@) || contains(uppercase(code), "VL6"@) || contains(uppercase(code), "VL7"@) || contains(uppercase(code), "VL8"@) || contains(uppercase(code), "EC1"@) || contains(uppercase(code), "EC2"@) || contains(uppercase(code), "EC8"@) || contains(lowercase(title), "electronics"@) || contains(lowercase(title), "signal"@) || contains(lowercase(title), "vlsi"@) || contains(lowercase(title), "embedded"@),
{
    assert(electronics_codes()[0] == "ECE"@);
    assert(electronics_codes()[1] == "ELC"@);
    assert(electronics_codes()[2] == "EIE"@);
    assert(electronics_codes()[3] == "VL6"@);
    assert(electronics_codes()[4] == "VL7"@);
    assert(electronics_codes()[5] == "VL8"@);
    assert(electronics_codes()[6] == "EC1"@);
    assert(electronics_codes()[7] == "EC2"@);
    assert(electronics_codes()[8] == "EC8"@);
    if holds_any(uppercase(code), electronics_codes()) {
        let j = choose|j: int| 0 <= j < electronics_codes().len() && contains(uppercase(code), #[trigger] electronics_codes()[j]);
        if j == 0 {
            assert(contains(uppercase(code), "ECE"@));
        }
        if j == 1 {
            assert(contains(uppercase(code), "ELC"@));
        }
        if j == 2 {
            assert(contains(uppercase(code), "EIE"@));
        }
        if j == 3 {
            assert(contains(uppercase(code), "VL6"@));
        }
        if j == 4 {
            assert(contains(uppercase(code), "VL7"@));
        }
        if j == 5 {
            assert(contains(uppercase(code), "VL8"@));
        }
        if j == 6 {
            assert(contains(uppercase(code), "EC1"@));
        }
        if j == 7 {
            assert(contains(uppercase(code), "EC2"@));
        }
        if j == 8 {
            assert(contains(uppercase(code), "EC8"@));
        }
    }
    assert(electronics_words()[0] == "electronics"@);
    assert(electronics_words()[1] == "signal"@);
    assert(electronics_words()[2] == "vlsi"@);
    assert(electronics_words()[3] == "embedded"@);
    if holds_any(lowercase(title), electronics_words()) {
        let j = choose|j: int| 0 <= j < electronics_words().len() && contains(lowercase(title), #[trigger] electronics_words()[j]);
        if j == 0 {
            assert(contains(lowercase(title), "electronics"@));
        }
        if j == 1 {
            assert(contains(lowercase(title), "signal"@));
        }
        if j == 2 {
            assert(contains(lowercase(title), "vlsi"@));
        }
        if j == 3 {
            assert(contains(lowercase(title), "embedded"@));
        }
    }
}

/// Parts of a course code that mark Electrical & Electronics.
pub open spec fn electrical_codes() -> Seq<Seq<char>> {
    seq!["EEE"@, "AEE"@, "ES6"@, "PE6"@, "PE7"@, "CIE"@, "RE7"@]
}

/// Words of a title that mark Electrical & Electronics.
pub open spec fn electrical_words() -> Seq<Seq<char>> {
    seq!["electrical"@, "power"@, "high voltage"@]
}

/// The course is marked as Electrical & Electronics by its code, title or path.
pub open spec fn marks_electrical(code: Seq<char>, title: Seq<char>, path: Seq<char>) -> bool {
    holds_any(uppercase(code), electrical_codes()) || holds_any(lowercase(title), electrical_words())
}

proof fn lemma_unmarked_electrical(code: Seq<char>, title: Seq<char>, path: Seq<char>)
    requires
        !marks_electrical(code, title, path),
    ensures
        !contains(uppercase(code), "EEE"@),
        !contains(uppercase(code), "AEE"@),
        !contains(uppercase(code), "ES6"@),
        !contains(uppercase(code), "PE6"@),
        !contains(uppercase(code), "PE7"@),
        !contains(uppercase(code), "CIE"@),
        !contains(uppercase(code), "RE7"@),
        !contains(lowercase(title), "electrical"@),
        !contains(lowercase(title), "power"@),
        !contains(lowercase(title), "high voltage"@),
{
    assert(electrical_codes()[0] == "EEE"@);
    assert(!contains(uppercase(code), electrical_codes()[0]));
    assert(electrical_codes()[1] == "AEE"@);
    assert(!contains(uppercase(code), electrical_codes()[1]));
    assert(electrical_codes()[2] == "ES6"@);
    assert(!contains(uppercase(code), electrical_codes()[2]));
    assert(electrical_codes()[3] == "PE6"@);
    assert(!contains(uppercase(code), electrical_codes()[3]));
    assert(electrical_codes()[4] == "PE7"@);
    assert(!contains(uppercase(code), electrical_codes()[4]));
    assert(electrical_codes()[5] == "CIE"@);
    assert(!contains(uppercase(code), electrical_codes()[5]));
    assert(electrical_codes()[6] == "RE7"@);
    assert(!contains(uppercase(code), electrical_codes()[6]));
    assert(electrical_words()[0] == "electrical"@);
    assert(!contains(lowercase(title), electrical_words()[0]));
    assert(electrical_words()[1] == "power"@);
    assert(!contains(lowercase(title), electrical_words()[1]));
    assert(electrical_words()[2] == "high voltage"@);
    assert(!contains(lowercase(title), electrical_words()[2]));
}

proof fn lemma_some_mark_of_electrical(code: Seq<char>, title: Seq<char>, path: Seq<char>)
    requires
        marks_electrical(code, title, path),
    ensures
        contains(uppercase(code), "EEE"@) || contains(uppercase(code), "AEE"@) || contains(uppercase(code), "ES6"@) || contains(uppercase(code), "PE6"@) || contains(uppercase(code), "PE7"@) || contains(uppercase(code), "CIE"@) || contains(uppercase(code), "RE7"@) || contains(lowercase(title), "electrical"@) || contains(lowercase(title), "power"@) || contains(lowercase(title), "high voltage"@),
{
    assert(electrical_codes()[0] == "EEE"@);
    assert(electrical_codes()[1] == "AEE"@);
    assert(electrical_codes()[2] == "ES6"@);
    assert(electrical_codes()[3] == "PE6"@);
    assert(electrical_codes()[4] == "PE7"@);
    assert(electrical_codes()[5] == "CIE"@);
    assert(electrical_codes()[6] == "RE7"@);
    if holds_any(uppercase(code), electrical_codes()) {
        let j = choose|j: int| 0 <= j < electrical_codes().len() && contains(uppercase(code), #[trigger] electrical_codes()[j]);
        if j == 0 {
            assert(contains(uppercase(code), "EEE"@));
        }
        if j == 1 {
            assert(contains(uppercase(code), "AEE"@));
        }
        if j == 2 {
            assert(contains(uppercase(code), "ES6"@));
        }
        if j == 3 {
            assert(contains(uppercase(code), "PE6"@));
        }
        if j == 4 {
            assert(contains(uppercase(code), "PE7"@));
        }
        if j == 5 {
            assert(contains(uppercase(code), "CIE"@));
        }
        if j == 6 {
            assert(contains(uppercase(code), "RE7"@));
        }
    }
    assert(electrical_words()[0] == "electrical"@);
    assert(electrical_words()[1] == "power"@);
    assert(electrical_words()[2] == "high voltage"@);
    if holds_any(lowercase(title), electrical_words()) {
        let j = choose|j: int| 0 <= j < electrical_words().len() && contains(lowercase(title), #[trigger] electrical_words()[j]);
        if j == 0 {
            assert(contains(lowercase(title), "electrical"@));
        }
        if j == 1 {
            assert(contains(lowercase(title), "power"@));
        }
        if j == 2 {
            assert(contains(lowercase(title), "high voltage"@));
        }
    }
}

/// Parts of a course code that mark Mechanical & Aerospace.
pub open spec fn mechanical_codes() -> Seq<Seq<char>> {
    seq!["MEC"@, "MEE"@, "AES"@, "AT6"@, "ME7"@, "ME8"@, "WME"@]
}

/// Words of a title that mark Mechanical & Aerospace.
pub open spec fn mechanical_words() -> Seq<Seq<char>> {
    seq!["mechanical"@, "thermal"@, "combustion"@, "automotive"@]
}

/// The course is marked as Mechanical & Aerospace by its code, title or path.
pub open spec fn marks_mechanical(code: Seq<char>, title: Seq<char>, path: Seq<char>) -> bool {
    holds_any(uppercase(code), mechanical_codes()) || holds_any(lowercase(title), mechanical_words())
}

proof fn lemma_unmarked_mechanical(code: Seq<char>, title: Seq<char>, path: Seq<char>)
    requires
        !marks_mechanical(code, title, path),
    ensures
        !contains(uppercase(code), "MEC"@),
        !contains(uppercase(code), "MEE"@),
        !contains(uppercase(code), "AES"@),
        !contains(uppercase(code), "AT6"@),
        !contains(uppercase(code), "ME7"@),
        !contains(uppercase(code), "ME8"@),
        !contains(uppercase(code), "WME"@),
        !contains(lowercase(title), "mechanical"@),
        !contains(lowercase(title), "thermal"@),
        !contains(lowercase(title), "combustion"@),
        !contains(lowercase(title), "automotive"@),
{
    assert(mechanical_codes()[0] == "MEC"@);
    assert(!contains(uppercase(code), mechanical_codes()[0]));
    assert(mechanical_codes()[1] == "MEE"@);
    assert(!contains(uppercase(code), mechanical_codes()[1]));
    assert(mechanical_codes()[2] == "AES"@);
    assert(!contains(uppercase(code), mechanical_codes()[2]));
    assert(mechanical_codes()[3] == "AT6"@);
    assert(!contains(uppercase(code), mechanical_codes()[3]));
    assert(mechanical_codes()[4] == "ME7"@);
    assert(!contains(uppercase(code), mechanical_codes()[4]));
    assert(mechanical_codes()[5] == "ME8"@);
    assert(!contains(uppercase(code), mechanical_codes()[5]));
    assert(mechanical_codes()[6] == "WME"@);
    assert(!contains(uppercase(code), mechanical_codes()[6]));
    assert(mechanical_words()[0] == "mechanical"@);
    assert(!contains(lowercase(title), mechanical_words()[0]));
    assert(mechanical_words()[1] == "thermal"@);
    assert(!contains(lowercase(title), mechanical_words()[1]));
    assert(mechanical_words()[2] == "combustion"@);
    assert(!contains(lowercase(title), mechanical_words()[2]));
    assert(mechanical_words()[3] == "automotive"@);
    assert(!contains(lowercase(title), mechanical_words()[3]));
}

proof fn lemma_some_mark_of_mechanical(code: Seq<char>, title: Seq<char>, path: Seq<char>)
    requires
        marks_mechanical(code, title, path),
    ensures
        contains(uppercase(code), "MEC"@) || contains(uppercase(code), "MEE"@) || contains(uppercase(code), "AES"@) || contains(uppercase(code), "AT6"@) || contains(uppercase(code), "ME7"@) || contains(uppercase(code), "ME8"@) || contains(uppercase(code), "WME"@) || contains(lowercase(title), "mechanical"@) || contains(lowercase(title), "thermal"@) || contains(lowercase(title), "combustion"@) || contains(lowercase(title), "automotive"@),
{
    assert(mechanical_codes()[0] == "MEC"@);
    assert(mechanical_codes()[1] == "MEE"@);
    assert(mechanical_codes()[2] == "AES"@);
    assert(mechanical_codes()[3] == "AT6"@);
    assert(mechanical_codes()[4] == "ME7"@);
    assert(mechanical_codes()[5] == "ME8"@);
    assert(mechanical_codes()[6] == "WME"@);
    if holds_any(uppercase(code), mechanical_codes()) {
        let j = choose|j: int| 0 <= j < mechanical_codes().len() && contains(uppercase(code), #[trigger] mechanical_codes()[j]);
        if j == 0 {
            assert(contains(uppercase(code), "MEC"@));
        }
        if j == 1 {
            assert(contains(uppercase(code), "MEE"@));
        }
        if j == 2 {
            assert(contains(uppercase(code), "AES"@));
        }
        if j == 3 {
            assert(contains(uppercase(code), "AT6"@));
        }
        if j == 4 {
            assert(contains(uppercase(code), "ME7"@));
        }
        if j == 5 {
            assert(contains(uppercase(code), "ME8"@));
        }
        if j == 6 {
            assert(contains(uppercase(code), "WME"@));
        }
    }
    assert(mechanical_words()[0] == "mechanical"@);
    assert(mechanical_words()[1] == "thermal"@);
    assert(mechanical_words()[2] == "combustion"@);
    assert(mechanical_words()[3] == "automotive"@);
    if holds_any(lowercase(title), mechanical_words()) {
        let j = choose|j: int| 0 <= j < mechanical_words().len() && contains(lowercase(title), #[trigger] mechanical_words()[j]);
        if j == 0 {
            assert(contains(lowercase(title), "mechanical"@));
        }
        if j == 1 {
            assert(contains(lowercase(title), "thermal"@));
        }
        if j == 2 {
            assert(contains(lowercase(title), "combustion"@));
        }
        if j == 3 {
            assert(contains(lowercase(title), "automotive"@));
        }
    }
}

/// Parts of a course code that mark Civil Engineering.
pub open spec fn civil_codes() -> Seq<Seq<char>> {
    seq!["CVL"@, "CE7"@, "CEN"@, "ED6"@, "SC7"@]
}

/// Words of a title that mark Civil Engineering.
pub open spec fn civil_words() -> Seq<Seq<char>> {
    seq!["civil"@, "structural"@]
}

/// The course is marked as Civil Engineering by its code, title or path.
pub open spec fn marks_civil(code: Seq<char>, title: Seq<char>, path: Seq<char>) -> bool {
    holds_any(uppercase(code), civil_codes()) || holds_any(lowercase(title), civil_words())
}

proof fn lemma_unmarked_civil(code: Seq<char>, title: Seq<char>, path: Seq<char>)
    requires
        !marks_civil(code, title, path),
    ensures
        !contains(uppercase(code), "CVL"@),
        !contains(uppercase(code), "CE7"@),
        !contains(uppercase(code), "CEN"@),
        !contains(uppercase(code), "ED6"@),
        !contains(uppercase(code), "SC7"@),
        !contains(lowercase(title), "civil"@),
        !contains(lowercase(title), "structural"@),
{
    assert(civil_codes()[0] == "CVL"@);
    assert(!contains(uppercase(code), civil_codes()[0]));
    assert(civil_codes()[1] == "CE7"@);
    assert(!contains(uppercase(code), civil_codes()[1]));
    assert(civil_codes()[2] == "CEN"@);
    assert(!contains(uppercase(code), civil_codes()[2]));
    assert(civil_codes()[3] == "ED6"@);
    assert(!contains(uppercase(code), civil_codes()[3]));
    assert(civil_codes()[4] == "SC7"@);
    assert(!contains(uppercase(code), civil_codes()[4]));
    assert(civil_words()[0] == "civil"@);
    assert(!contains(lowercase(title), civil_words()[0]));
    assert(civil_words()[1] == "structural"@);
    assert(!contains(lowercase(title), civil_words()[1]));
}

proof fn lemma_some_mark_of_civil(code: Seq<char>, title: Seq<char>, path: Seq<char>)
    requires
        marks_civil(code, title, path),
    ensures
        contains(uppercase(code), "CVL"@) || contains(uppercase(code), "CE7"@) || contains(uppercase(code), "CEN"@) || contains(uppercase(code), "ED6"@) || contains(uppercase(code), "SC7"@) || contains(lowercase(title), "civil"@) || contains(lowercase(title), "structural"@),
{
    assert(civil_codes()[0] == "CVL"@);
    assert(civil_codes()[1] == "CE7"@);
    assert(civil_codes()[2] == "CEN"@);
    assert(civil_codes()[3] == "ED6"@);
    assert(civil_codes()[4] == "SC7"@);
    if holds_any(uppercase(code), civil_codes()) {
        let j = choose|j: int| 0 <= j < civil_codes().len() && contains(uppercase(code), #[trigger] civil_codes()[j]);
        if j == 0 {
            assert(contains(uppercase(code), "CVL"@));
        }
        if j == 1 {
            assert(contains(uppercase(code), "CE7"@));
        }
        if j == 2 {
            assert(contains(uppercase(code), "CEN"@));
        }
        if j == 3 {
            assert(contains(uppercase(code), "ED6"@));
        }
        if j == 4 {
            assert(contains(uppercase(code), "SC7"@));
        }
    }
    assert(civil_words()[0] == "civil"@);
    assert(civil_words()[1] == "structural"@);
    if holds_any(lowercase(title), civil_words()) {
        let j = choose|j: int| 0 <= j < civil_words().len() && contains(lowercase(title), #[trigger] civil_words()[j]);
        if j == 0 {
            assert(contains(lowercase(title), "civil"@));
        }
        if j == 1 {
            assert(contains(lowercase(title), "structural"@));
        }
    }
}

/// Parts of a course code that mark Chemical Engineering.
pub open spec fn chemical_engineering_codes() -> Seq<Seq<char>> {
    seq!["CHE"@, "CH6"@, "SC6"@]
}

/// Words of a title that mark Chemical Engineering.
pub open spec fn chemical_engineering_words() -> Seq<Seq<char>> {
    seq!["chemical engineering"@]
}

/// The course is marked as Chemical Engineering by its code, title or path.
pub open spec fn marks_chemical_engineering(code: Seq<char>, title: Seq<char>, path: Seq<char>) -> bool {
    holds_any(uppercase(code), chemical_engineering_codes()) || holds_any(lowercase(title), chemical_engineering_words())
}

proof fn lemma_unmarked_chemical_engineering(code: Seq<char>, title: Seq<char>, path: Seq<char>)
    requires
        !marks_chemical_engineering(code, title, path),
    ensures
        !contains(uppercase(code), "CHE"@),
        !contains(uppercase(code), "CH6"@),
        !contains(uppercase(code), "SC6"@),
        !contains(lowercase(title), "chemical engineering"@),
{
    assert(chemical_engineering_codes()[0] == "CHE"@);
    assert(!contains(uppercase(code), chemical_engineering_codes()[0]));
    assert(chemical_engineering_codes()[1] == "CH6"@);
    assert(!contains(uppercase(code), chemical_engineering_codes()[1]));
    assert(chemical_engineering_codes()[2] == "SC6"@);
    assert(!contains(uppercase(code), chemical_engineering_codes()[2]));
    assert(chemical_engineering_words()[0] == "chemical engineering"@);
    assert(!contains(lowercase(title), chemical_engineering_words()[0]));
}

proof fn lemma_some_mark_of_chemical_engineering(code: Seq<char>, title: Seq<char>, path: Seq<char>)
    requires
        marks_chemical_engineering(code, title, path),
    ensures
        contains(uppercase(code), "CHE"@) || contains(uppercase(code), "CH6"@) || contains(uppercase(code), "SC6"@) || contains(lowercase(title), "chemical engineering"@),
{
    assert(chemical_engineering_codes()[0] == "CHE"@);
    assert(chemical_engineering_codes()[1] == "CH6"@);
    assert(chemical_engineering_codes()[2] == "SC6"@);
    if holds_any(uppercase(code), chemical_engineering_codes()) {
        let j = choose|j: int| 0 <= j < chemical_engineering_codes().len() && contains(uppercase(code), #[trigger] chemical_engineering_codes()[j]);
        if j == 0 {
            assert(contains(uppercase(code), "CHE"@));
        }
        if j == 1 {
            assert(contains(uppercase(code), "CH6"@));
        }
        if j == 2 {
            assert(contains(uppercase(code), "SC6"@));
        }
    }
    assert(chemical_engineering_words()[0] == "chemical engineering"@);
    if holds_any(lowercase(title), chemical_engineering_words()) {
        let j = choose|j: int| 0 <= j < chemical_engineering_words().len() && contains(lowercase(title), #[trigger] chemical_engineering_words()[j]);
        if j == 0 {
            assert(contains(lowercase(title), "chemical engineering"@));
        }
    }
}

/// Parts of a course code that mark Mathematics & Statistics.
pub open spec fn mathematics_codes() -> Seq<Seq<char>> {
    seq!["MAT"@, "MA6"@, "MA7"@, "MA8"@, "MA9"@, "MAL"@]
}

/// Words of a title that mark Mathematics & Statistics.
pub open spec fn mathematics_words() -> Seq<Seq<char>> {
    seq!["mathematics"@, "calculus"@, "algebra"@, "statistic"@]
}

/// The course is marked as Mathematics & Statistics by its code, title or path.
pub open spec fn marks_mathematics(code: Seq<char>, title: Seq<char>, path: Seq<char>) -> bool {
    holds_any(uppercase(code), mathematics_codes()) || holds_any(lowercase(title), mathematics_words())
}

proof fn lemma_unmarked_mathematics(code: Seq<char>, title: Seq<char>, path: Seq<char>)
    requires
        !marks_mathematics(code, title, path),
    ensures
        !contains(uppercase(code), "MAT"@),
        !contains(uppercase(code), "MA6"@),
        !contains(uppercase(code), "MA7"@),
        !contains(uppercase(code), "MA8"@),
        !contains(uppercase(code), "MA9"@),
        !contains(uppercase(code), "MAL"@),
        !contains(lowercase(title), "mathematics"@),
        !contains(lowercase(title), "calculus"@),
        !contains(lowercase(title), "algebra"@),
        !contains(lowercase(title), "statistic"@),
{
    assert(mathematics_codes()[0] == "MAT"@);
    assert(!contains(uppercase(code), mathematics_codes()[0]));
    assert(mathematics_codes()[1] == "MA6"@);
    assert(!contains(uppercase(code), mathematics_codes()[1]));
    assert(mathematics_codes()[2] == "MA7"@);
    assert(!contains(uppercase(code), mathematics_codes()[2]));
    assert(mathematics_codes()[3] == "MA8"@);
    assert(!contains(uppercase(code), mathematics_codes()[3]));
    assert(mathematics_codes()[4] == "MA9"@);
    assert(!contains(uppercase(code), mathematics_codes()[4]));
    assert(mathematics_codes()[5] == "MAL"@);
    assert(!contains(uppercase(code), mathematics_codes()[5]));
    assert(mathematics_words()[0] == "mathematics"@);
    assert(!contains(lowercase(title), mathematics_words()[0]));
    assert(mathematics_words()[1] == "calculus"@);
    assert(!contains(lowercase(title), mathematics_words()[1]));
    assert(mathematics_words()[2] == "algebra"@);
    assert(!contains(lowercase(title), mathematics_words()[2]));
    assert(mathematics_words()[3] == "statistic"@);
    assert(!contains(lowercase(title), mathematics_words()[3]));
}

proof fn lemma_some_mark_of_mathematics(code: Seq<char>, title: Seq<char>, path: Seq<char>)
    requires
        marks_mathematics(code, title, path),
    ensures
        contains(uppercase(code), "MAT"@) || contains(uppercase(code), "MA6"@) || contains(uppercase(code), "MA7"@) || contains(uppercase(code), "MA8"@) || contains(uppercase(code), "MA9"@) || contains(uppercase(code), "MAL"@) || contains(lowercase(title), "mathematics"@) || contains(lowercase(title), "calculus"@) || contains(lowercase(title), "algebra"@) || contains(lowercase(title), "statistic"@),
{
    assert(mathematics_codes()[0] == "MAT"@);
    assert(mathematics_codes()[1] == "MA6"@);
    assert(mathematics_codes()[2] == "MA7"@);
    assert(mathematics_codes()[3] == "MA8"@);
    assert(mathematics_codes()[4] == "MA9"@);
    assert(mathematics_codes()[5] == "MAL"@);
    if holds_any(uppercase(code), mathematics_codes()) {
        let j = choose|j: int| 0 <= j < mathematics_codes().len() && contains(uppercase(code), #[trigger] mathematics_codes()[j]);
        if j == 0 {
            assert(contains(uppercase(code), "MAT"@));
        }
        if j == 1 {
            assert(contains(uppercase(code), "MA6"@));
        }
        if j == 2 {
            assert(contains(uppercase(code), "MA7"@));
        }
        if j == 3 {
            assert(contains(uppercase(code), "MA8"@));
        }
        if j == 4 {
            assert(contains(uppercase(code), "MA9"@));
        }
        if j == 5 {
            assert(contains(uppercase(code), "MAL"@));
        }
    }
    assert(mathematics_words()[0] == "mathematics"@);
    assert(mathematics_words()[1] == "calculus"@);
    assert(mathematics_words()[2] == "algebra"@);
    assert(mathematics_words()[3] == "statistic"@);
    if holds_any(lowercase(title), mathematics_words()) {
        let j = choose|j: int| 0 <= j < mathematics_words().len() && contains(lowercase(title), #[trigger] mathematics_words()[j]);
        if j == 0 {
            assert(contains(lowercase(title), "mathematics"@));
        }
        if j == 1 {
            assert(contains(lowercase(title), "calculus"@));
        }
        if j == 2 {
            assert(contains(lowercase(title), "algebra"@));
        }
        if j == 3 {
            assert(contains(lowercase(title), "statistic"@));
        }
    }
}

/// Parts of a course code that mark Physical Sciences.
pub open spec fn physics_codes() -> Seq<Seq<char>> {
    seq!["PHY"@, "PH6"@, "PH7"@]
}

/// Words of a title that mark Physical Sciences.
pub open spec fn physics_words() -> Seq<Seq<char>> {
    seq!["physics"@]
}

/// The course is marked as Physical Sciences by its code, title or path.
pub open spec fn marks_physics(code: Seq<char>, title: Seq<char>, path: Seq<char>) -> bool {
    holds_any(uppercase(code), physics_codes()) || holds_any(lowercase(title), physics_words())
}

proof fn lemma_unmarked_physics(code: Seq<char>, title: Seq<char>, path: Seq<char>)
    requires
        !marks_physics(code, title, path),
    ensures
        !contains(uppercase(code), "PHY"@),
        !contains(uppercase(code), "PH6"@),
        !contains(uppercase(code), "PH7"@),
        !contains(lowercase(title), "physics"@),
{
    assert(physics_codes()[0] == "PHY"@);
    assert(!contains(uppercase(code), physics_codes()[0]));
    assert(physics_codes()[1] == "PH6"@);
    assert(!contains(uppercase(code), physics_codes()[1]));
    assert(physics_codes()[2] == "PH7"@);
    assert(!contains(uppercase(code), physics_codes()[2]));
    assert(physics_words()[0] == "physics"@);
    assert(!contains(lowercase(title), physics_words()[0]));
}

proof fn lemma_some_mark_of_physics(code: Seq<char>, title: Seq<char>, path: Seq<char>)
    requires
        marks_physics(code, title, path),
    ensures
        contains(uppercase(code), "PHY"@) || contains(uppercase(code), "PH6"@) || contains(uppercase(code), "PH7"@) || contains(lowercase(title), "physics"@),
{
    assert(physics_codes()[0] == "PHY"@);
    assert(physics_codes()[1] == "PH6"@);
    assert(physics_codes()[2] == "PH7"@);
    if holds_any(uppercase(code), physics_codes()) {
        let j = choose|j: int| 0 <= j < physics_codes().len() && contains(uppercase(code), #[trigger] physics_codes()[j]);
        if j == 0 {
            assert(contains(uppercase(code), "PHY"@));
        }
        if j == 1 {
            assert(contains(uppercase(code), "PH6"@));
        }
        if j == 2 {
            assert(contains(uppercase(code), "PH7"@));
        }
    }
    assert(physics_words()[0] == "physics"@);
    if holds_any(lowercase(title), physics_words()) {
        let j = choose|j: int| 0 <= j < physics_words().len() && contains(lowercase(title), #[trigger] physics_words()[j]);
        if j == 0 {
            assert(contains(lowercase(title), "physics"@));
        }
    }
}

/// Parts of a course code that mark Chemical Sciences.
pub open spec fn chemistry_codes() -> Seq<Seq<char>> {
    seq!["CHY"@, "CY6"@, "CY7"@, "CY4"@]
}

/// Words of a title that mark Chemical Sciences.
pub open spec fn chemistry_words() -> Seq<Seq<char>> {
    seq!["chemistry"@]
}

/// The course is marked as Chemical Sciences by its code, title or path.
pub open spec fn marks_chemistry(code: Seq<char>, title: Seq<char>, path: Seq<char>) -> bool {
    holds_any(uppercase(code), chemistry_codes()) || holds_any(lowercase(title), chemistry_words())
}

proof fn lemma_unmarked_chemistry(code: Seq<char>, title: Seq<char>, path: Seq<char>)
    requires
        !marks_chemistry(code, title, path),
    ensures
        !contains(uppercase(code), "CHY"@),
        !contains(uppercase(code), "CY6"@),
        !contains(uppercase(code), "CY7"@),
        !contains(uppercase(code), "CY4"@),
        !contains(lowercase(title), "chemistry"@),
{
    assert(chemistry_codes()[0] == "CHY"@);
    assert(!contains(uppercase(code), chemistry_codes()[0]));
    assert(chemistry_codes()[1] == "CY6"@);
    assert(!contains(uppercase(code), chemistry_codes()[1]));
    assert(chemistry_codes()[2] == "CY7"@);
    assert(!contains(uppercase(code), chemistry_codes()[2]));
    assert(chemistry_codes()[3] == "CY4"@);
    assert(!contains(uppercase(code), chemistry_codes()[3]));
    assert(chemistry_words()[0] == "chemistry"@);
    assert(!contains(lowercase(title), chemistry_words()[0]));
}

proof fn lemma_some_mark_of_chemistry(code: Seq<char>, title: Seq<char>, path: Seq<char>)
    requires
        marks_chemistry(code, title, path),
    ensures
        contains(uppercase(code), "CHY"@) || contains(uppercase(code), "CY6"@) || contains(uppercase(code), "CY7"@) || contains(uppercase(code), "CY4"@) || contains(lowercase(title), "chemistry"@),
{
    assert(chemistry_codes()[0] == "CHY"@);
    assert(chemistry_codes()[1] == "CY6"@);
    assert(chemistry_codes()[2] == "CY7"@);
    assert(chemistry_codes()[3] == "CY4"@);
    if holds_any(uppercase(code), chemistry_codes()) {
        let j = choose|j: int| 0 <= j < chemistry_codes().len() && contains(uppercase(code), #[trigger] chemistry_codes()[j]);
        if j == 0 {
            assert(contains(uppercase(code), "CHY"@));
        }
        if j == 1 {
            assert(contains(uppercase(code), "CY6"@));
        }
        if j == 2 {
            assert(contains(uppercase(code), "CY7"@));
        }
        if j == 3 {
            assert(contains(uppercase(code), "CY4"@));
        }
    }
    assert(chemistry_words()[0] == "chemistry"@);
    if holds_any(lowercase(title), chemistry_words()) {
        let j = choose|j: int| 0 <= j < chemistry_words().len() && contains(lowercase(title), #[trigger] chemistry_words()[j]);
        if j == 0 {
            assert(contains(lowercase(title), "chemistry"@));
        }
    }
}

/// Parts of a course code that mark Biotechnology & Health.
pub open spec fn biotechnology_codes() -> Seq<Seq<char>> {
    seq!["BIO"@, "BM6"@, "BM7"@, "BM8"@, "BMT"@, "HOR"@, "GPB"@, "SS8"@]
}

/// Words of a title that mark Biotechnology & Health.
pub open spec fn biotechnology_words() -> Seq<Seq<char>> {
    seq!["bio"@, "medical"@]
}

/// The course is marked as Biotechnology & Health by its code, title or path.
pub open spec fn marks_biotechnology(code: Seq<char>, title: Seq<char>, path: Seq<char>) -> bool {
    holds_any(uppercase(code), biotechnology_codes()) || holds_any(lowercase(title), biotechnology_words())
}

proof fn lemma_unmarked_biotechnology(code: Seq<char>, title: Seq<char>, path: Seq<char>)
    requires
        !marks_biotechnology(code, title, path),
    ensures
        !contains(uppercase(code), "BIO"@),
        !contains(uppercase(code), "BM6"@),
        !contains(uppercase(code), "BM7"@),
        !contains(uppercase(code), "BM8"@),
        !contains(uppercase(code), "BMT"@),
        !contains(uppercase(code), "HOR"@),
        !contains(uppercase(code), "GPB"@),
        !contains(uppercase(code), "SS8"@),
        !contains(lowercase(title), "bio"@),
        !contains(lowercase(title), "medical"@),
{
    assert(biotechnology_codes()[0] == "BIO"@);
    assert(!contains(uppercase(code), biotechnology_codes()[0]));
    assert(biotechnology_codes()[1] == "BM6"@);
    assert(!contains(uppercase(code), biotechnology_codes()[1]));
    assert(biotechnology_codes()[2] == "BM7"@);
    assert(!contains(uppercase(code), biotechnology_codes()[2]));
    assert(biotechnology_codes()[3] == "BM8"@);
    assert(!contains(uppercase(code), biotechnology_codes()[3]));
    assert(biotechnology_codes()[4] == "BMT"@);
    assert(!contains(uppercase(code), biotechnology_codes()[4]));
    assert(biotechnology_codes()[5] == "HOR"@);
    assert(!contains(uppercase(code), biotechnology_codes()[5]));
    assert(biotechnology_codes()[6] == "GPB"@);
    assert(!contains(uppercase(code), biotechnology_codes()[6]));
    assert(biotechnology_codes()[7] == "SS8"@);
    assert(!contains(uppercase(code), biotechnology_codes()[7]));
    assert(biotechnology_words()[0] == "bio"@);
    assert(!contains(lowercase(title), biotechnology_words()[0]));
    assert(biotechnology_words()[1] == "medical"@);
    assert(!contains(lowercase(title), biotechnology_words()[1]));
}

proof fn lemma_some_mark_of_biotechnology(code: Seq<char>, title: Seq<char>, path: Seq<char>)
    requires
        marks_biotechnology(code, title, path),
    ensures
        contains(uppercase(code), "BIO"@) || contains(uppercase(code), "BM6"@) || contains(uppercase(code), "BM7"@) || contains(uppercase(code), "BM8"@) || contains(uppercase(code), "BMT"@) || contains(uppercase(code), "HOR"@) || contains(uppercase(code), "GPB"@) || contains(uppercase(code), "SS8"@) || contains(lowercase(title), "bio"@) || contains(lowercase(title), "medical"@),
{
    assert(biotechnology_codes()[0] == "BIO"@);
    assert(biotechnology_codes()[1] == "BM6"@);
    assert(biotechnology_codes()[2] == "BM7"@);
    assert(biotechnology_codes()[3] == "BM8"@);
    assert(biotechnology_codes()[4] == "BMT"@);
    assert(biotechnology_codes()[5] == "HOR"@);
    assert(biotechnology_codes()[6] == "GPB"@);
    assert(biotechnology_codes()[7] == "SS8"@);
    if holds_any(uppercase(code), biotechnology_codes()) {
        let j = choose|j: int| 0 <= j < biotechnology_codes().len() && contains(uppercase(code), #[trigger] biotechnology_codes()[j]);
        if j == 0 {
            assert(contains(uppercase(code), "BIO"@));
        }
        if j == 1 {
            assert(contains(uppercase(code), "BM6"@));
        }
        if j == 2 {
            assert(contains(uppercase(code), "BM7"@));
        }
        if j == 3 {
            assert(contains(uppercase(code), "BM8"@));
        }
        if j == 4 {
            assert(contains(uppercase(code), "BMT"@));
        }
        if j == 5 {
            assert(contains(uppercase(code), "HOR"@));
        }
        if j == 6 {
            assert(contains(uppercase(code), "GPB"@));
        }
        if j == 7 {
            assert(contains(uppercase(code), "SS8"@));
        }
    }
    assert(biotechnology_words()[0] == "bio"@);
    assert(biotechnology_words()[1] == "medical"@);
    if holds_any(lowercase(title), biotechnology_words()) {
        let j = choose|j: int| 0 <= j < biotechnology_words().len() && contains(lowercase(title), #[trigger] biotechnology_words()[j]);
        if j == 0 {
            assert(contains(lowercase(title), "bio"@));
        }
        if j == 1 {
            assert(contains(lowercase(title), "medical"@));
        }
    }
}

/// Parts of a course code that mark Media & Communication.
pub open spec fn media_codes() -> Seq<Seq<char>> {
    seq!["CMJ"@, "COM"@, "DDA"@]
}

/// Words of a title that mark Media & Communication.
pub open spec fn media_words() -> Seq<Seq<char>> {
    seq!["media"@, "journalism"@, "communication"@]
}

/// The course is marked as Media & Communication by its code, title or path.
pub open spec fn marks_media(code: Seq<char>, title: Seq<char>, path: Seq<char>) -> bool {
    holds_any(uppercase(code), media_codes()) || holds_any(lowercase(title), media_words())
}

proof fn lemma_unmarked_media(code: Seq<char>, title: Seq<char>, path: Seq<char>)
    requires
        !marks_media(code, title, path),
    ensures
        !contains(uppercase(code), "CMJ"@),
        !contains(uppercase(code), "COM"@),
        !contains(uppercase(code), "DDA"@),
        !contains(lowercase(title), "media"@),
        !contains(lowercase(title), "journalism"@),
        !contains(lowercase(title), "communication"@),
{
    assert(media_codes()[0] == "CMJ"@);
    assert(!contains(uppercase(code), media_codes()[0]));
    assert(media_codes()[1] == "COM"@);
    assert(!contains(uppercase(code), media_codes()[1]));
    assert(media_codes()[2] == "DDA"@);
    assert(!contains(uppercase(code), media_codes()[2]));
    assert(media_words()[0] == "media"@);
    assert(!contains(lowercase(title), media_words()[0]));
    assert(media_words()[1] == "journalism"@);
    assert(!contains(lowercase(title), media_words()[1]));
    assert(media_words()[2] == "communication"@);
    assert(!contains(lowercase(title), media_words()[2]));
}

proof fn lemma_some_mark_of_media(code: Seq<char>, title: Seq<char>, path: Seq<char>)
    requires
        marks_media(code, title, path),
    ensures
        contains(uppercase(code), "CMJ"@) || contains(uppercase(code), "COM"@) || contains(uppercase(code), "DDA"@) || contains(lowercase(title), "media"@) || contains(lowercase(title), "journalism"@) || contains(lowercase(title), "communication"@),
{
    assert(media_codes()[0] == "CMJ"@);
    assert(media_codes()[1] == "COM"@);
    assert(media_codes()[2] == "DDA"@);
    if holds_any(uppercase(code), media_codes()) {
        let j = choose|j: int| 0 <= j < media_codes().len() && contains(uppercase(code), #[trigger] media_codes()[j]);
        if j == 0 {
            assert(contains(uppercase(code), "CMJ"@));
        }
        if j == 1 {
            assert(contains(uppercase(code), "COM"@));
        }
        if j == 2 {
            assert(contains(uppercase(code), "DDA"@));
        }
    }
    assert(media_words()[0] == "media"@);
    assert(media_words()[1] == "journalism"@);
    assert(media_words()[2] == "communication"@);
    if holds_any(lowercase(title), media_words()) {
        let j = choose|j: int| 0 <= j < media_words().len() && contains(lowercase(title), #[trigger] media_words()[j]);
        if j == 0 {
            assert(contains(lowercase(title), "media"@));
        }
        if j == 1 {
            assert(contains(lowercase(title), "journalism"@));
        }
        if j == 2 {
            assert(contains(lowercase(title), "communication"@));
        }
    }
}

/// Parts of a course code that mark Humanities & Social Sciences.
pub open spec fn humanities_codes() -> Seq<Seq<char>> {
    seq!["HUM"@, "ELL"@, "ENG"@, "TAM"@, "GER"@, "FRE"@, "MAL"@, "FSN"@, "SOC"@, "SWK"@, "SW"@]
}

/// Words of a file path that mark Humanities & Social Sciences.
pub open spec fn humanities_paths() -> Seq<Seq<char>> {
    seq!["social work"@]
}

/// Words of a title that mark Humanities & Social Sciences.
pub open spec fn humanities_words() -> Seq<Seq<char>> {
    seq!["english"@, "social"@, "culture"@]
}

/// The course is marked as Humanities & Social Sciences by its code, title or path.
pub open spec fn marks_humanities(code: Seq<char>, title: Seq<char>, path: Seq<char>) -> bool {
    holds_any(uppercase(code), humanities_codes()) || holds_any(lowercase(path), humanities_paths()) || holds_any(lowercase(title), humanities_words())
}

proof fn lemma_unmarked_humanities(code: Seq<char>, title: Seq<char>, path: Seq<char>)
    requires
        !marks_humanities(code, title, path),
    ensures
        !contains(uppercase(code), "HUM"@),
        !contains(uppercase(code), "ELL"@),
        !contains(uppercase(code), "ENG"@),
        !contains(uppercase(code), "TAM"@),
        !contains(uppercase(code), "GER"@),
        !contains(uppercase(code), "FRE"@),
        !contains(uppercase(code), "MAL"@),
        !contains(uppercase(code), "FSN"@),
        !contains(uppercase(code), "SOC"@),
        !contains(uppercase(code), "SWK"@),
        !contains(uppercase(code), "SW"@),
        !contains(lowercase(path), "social work"@),
        !contains(lowercase(title), "english"@),
        !contains(lowercase(title), "social"@),
        !contains(lowercase(title), "culture"@),
{
    assert(humanities_codes()[0] == "HUM"@);
    assert(!contains(uppercase(code), humanities_codes()[0]));
    assert(humanities_codes()[1] == "ELL"@);
    assert(!contains(uppercase(code), humanities_codes()[1]));
    assert(humanities_codes()[2] == "ENG"@);
    assert(!contains(uppercase(code), humanities_codes()[2]));
    assert(humanities_codes()[3] == "TAM"@);
    assert(!contains(uppercase(code), humanities_codes()[3]));
    assert(humanities_codes()[4] == "GER"@);
    assert(!contains(uppercase(code), humanities_codes()[4]));
    assert(humanities_codes()[5] == "FRE"@);
    assert(!contains(uppercase(code), humanities_codes()[5]));
    assert(humanities_codes()[6] == "MAL"@);
    assert(!contains(uppercase(code), humanities_codes()[6]));
    assert(humanities_codes()[7] == "FSN"@);
    assert(!contains(uppercase(code), humanities_codes()[7]));
    assert(humanities_codes()[8] == "SOC"@);
    assert(!contains(uppercase(code), humanities_codes()[8]));
    assert(humanities_codes()[9] == "SWK"@);
    assert(!contains(uppercase(code), humanities_codes()[9]));
    assert(humanities_codes()[10] == "SW"@);
    assert(!contains(uppercase(code), humanities_codes()[10]));
    assert(humanities_paths()[0] == "social work"@);
    assert(!contains(lowercase(path), humanities_paths()[0]));
    assert(humanities_words()[0] == "english"@);
    assert(!contains(lowercase(title), humanities_words()[0]));
    assert(humanities_words()[1] == "social"@);
    assert(!contains(lowercase(title), humanities_words()[1]));
    assert(humanities_words()[2] == "culture"@);
    assert(!contains(lowercase(title), humanities_words()[2]));
}

proof fn lemma_some_mark_of_humanities(code: Seq<char>, title: Seq<char>, path: Seq<char>)
    requires
        marks_humanities(code, title, path),
    ensures
        contains(uppercase(code), "HUM"@) || contains(uppercase(code), "ELL"@) || contains(uppercase(code), "ENG"@) || contains(uppercase(code), "TAM"@) || contains(uppercase(code), "GER"@) || contains(uppercase(code), "FRE"@) || contains(uppercase(code), "MAL"@) || contains(uppercase(code), "FSN"@) || contains(uppercase(code), "SOC"@) || contains(uppercase(code), "SWK"@) || contains(uppercase(code), "SW"@) || contains(lowercase(path), "social work"@) || contains(lowercase(title), "english"@) || contains(lowercase(title), "social"@) || contains(lowercase(title), "culture"@),
{
    assert(humanities_codes()[0] == "HUM"@);
    assert(humanities_codes()[1] == "ELL"@);
    assert(humanities_codes()[2] == "ENG"@);
    assert(humanities_codes()[3] == "TAM"@);
    assert(humanities_codes()[4] == "GER"@);
    assert(humanities_codes()[5] == "FRE"@);
    assert(humanities_codes()[6] == "MAL"@);
    assert(humanities_codes()[7] == "FSN"@);
    assert(humanities_codes()[8] == "SOC"@);
    assert(humanities_codes()[9] == "SWK"@);
    assert(humanities_codes()[10] == "SW"@);
    if holds_any(uppercase(code), humanities_codes()) {
        let j = choose|j: int| 0 <= j < humanities_codes().len() && contains(uppercase(code), #[trigger] humanities_codes()[j]);
        if j == 0 {
            assert(contains(uppercase(code), "HUM"@));
        }
        if j == 1 {
            assert(contains(uppercase(code), "ELL"@));
        }
        if j == 2 {
            assert(contains(uppercase(code), "ENG"@));
        }
        if j == 3 {
            assert(contains(uppercase(code), "TAM"@));
        }
        if j == 4 {
            assert(contains(uppercase(code), "GER"@));
        }
        if j == 5 {
            assert(contains(uppercase(code), "FRE"@));
        }
        if j == 6 {
            assert(contains(uppercase(code), "MAL"@));
        }
        if j == 7 {
            assert(contains(uppercase(code), "FSN"@));
        }
        if j == 8 {
            assert(contains(uppercase(code), "SOC"@));
        }
        if j == 9 {
            assert(contains(uppercase(code), "SWK"@));
        }
        if j == 10 {
            assert(contains(uppercase(code), "SW"@));
        }
    }
    assert(humanities_paths()[0] == "social work"@);
    if holds_any(lowercase(path), humanities_paths()) {
        let j = choose|j: int| 0 <= j < humanities_paths().len() && contains(lowercase(path), #[trigger] humanities_paths()[j]);
        if j == 0 {
            assert(contains(lowercase(path), "social work"@));
        }
    }
    assert(humanities_words()[0] == "english"@);
    assert(humanities_words()[1] == "social"@);
    assert(humanities_words()[2] == "culture"@);
    if holds_any(lowercase(title), humanities_words()) {
        let j = choose|j: int| 0 <= j < humanities_words().len() && contains(lowercase(title), #[trigger] humanities_words()[j]);
        if j == 0 {
            assert(contains(lowercase(title), "english"@));
        }
        if j == 1 {
            assert(contains(lowercase(title), "social"@));
        }
        if j == 2 {
            assert(contains(lowercase(title), "culture"@));
        }
    }
}

/// A course is filed under the first department, in the order below,
/// whose marks its upper-cased code, lower-cased title or lower-cased path
/// holds; with none of them it is General & Interdisciplinary. The order is
/// Computer Science, Electronics, Electrical, Mechanical, Civil, Chemical
/// Engineering, Mathematics, Physics, Chemistry, Biotechnology, Media and
/// Humanities.
pub proof fn departments_follow_their_marks(code: Seq<char>, title: Seq<char>, path: Seq<char>)
    ensures
        marks_computer_science(code, title, path) ==> department_of(code, title, path) == "Computer Science & Engineering"@,
        !marks_computer_science(code, title, path) && marks_electronics(code, title, path) ==> department_of(code, title, path) == "Electronics & Communication"@,
        !marks_computer_science(code, title, path) && !marks_electronics(code, title, path) && marks_electrical(code, title, path) ==> department_of(code, title, path) == "Electrical & Electronics"@,
        !marks_computer_science(code, title, path) && !marks_electronics(code, title, path) && !marks_electrical(code, title, path) && marks_mechanical(code, title, path) ==> department_of(code, title, path) == "Mechanical & Aerospace"@,
        !marks_computer_science(code, title, path) && !marks_electronics(code, title, path) && !marks_electrical(code, title, path) && !marks_mechanical(code, title, path) && marks_civil(code, title, path) ==> department_of(code, title, path) == "Civil Engineering"@,
        !marks_computer_science(code, title, path) && !marks_electronics(code, title, path) && !marks_electrical(code, title, path) && !marks_mechanical(code, title, path) && !marks_civil(code, title, path) && marks_chemical_engineering(code, title, path) ==> department_of(code, title, path) == "Chemical Engineering"@,
        !marks_computer_science(code, title, path) && !marks_electronics(code, title, path) && !marks_electrical(code, title, path) && !marks_mechanical(code, title, path) && !marks_civil(code, title, path) && !marks_chemical_engineering(code, title, path) && marks_mathematics(code, title, path) ==> department_of(code, title, path) == "Mathematics & Statistics"@,
        !marks_computer_science(code, title, path) && !marks_electronics(code, title, path) && !marks_electrical(code, title, path) && !marks_mechanical(code, title, path) && !marks_civil(code, title, path) && !marks_chemical_engineering(code, title, path) && !marks_mathematics(code, title, path) && marks_physics(code, title, path) ==> department_of(code, title, path) == "Physical Sciences"@,
        !marks_computer_science(code, title, path) && !marks_electronics(code, title, path) && !marks_electrical(code, title, path) && !marks_mechanical(code, title, path) && !marks_civil(code, title, path) && !marks_chemical_engineering(code, title, path) && !marks_mathematics(code, title, path) && !marks_physics(code, title, path) && marks_chemistry(code, title, path) ==> department_of(code, title, path) == "Chemical Sciences"@,
        !marks_computer_science(code, title, path) && !marks_electronics(code, title, path) && !marks_electrical(code, title, path) && !marks_mechanical(code, title, path) && !marks_civil(code, title, path) && !marks_chemical_engineering(code, title, path) && !marks_mathematics(code, title, path) && !marks_physics(code, title, path) && !marks_chemistry(code, title, path) && marks_biotechnology(code, title, path) ==> department_of(code, title, path) == "Biotechnology & Health"@,
        !marks_computer_science(code, title, path) && !marks_electronics(code, title, path) && !marks_electrical(code, title, path) && !marks_mechanical(code, title, path) && !marks_civil(code, title, path) && !marks_chemical_engineering(code, title, path) && !marks_mathematics(code, title, path) && !marks_physics(code, title, path) && !marks_chemistry(code, title, path) && !marks_biotechnology(code, title, path) && marks_media(code, title, path) ==> department_of(code, title, path) == "Media & Communication"@,
        !marks_computer_science(code, title, path) && !marks_electronics(code, title, path) && !marks_electrical(code, title, path) && !marks_mechanical(code, title, path) && !marks_civil(code, title, path) && !marks_chemical_engineering(code, title, path) && !marks_mathematics(code, title, path) && !marks_physics(code, title, path) && !marks_chemistry(code, title, path) && !marks_biotechnology(code, title, path) && !marks_media(code, title, path) && marks_humanities(code, title, path) ==> department_of(code, title, path) == "Humanities & Social Sciences"@,
        !marks_computer_science(code, title, path) && !marks_electronics(code, title, path) && !marks_electrical(code, title, path) && !marks_mechanical(code, title, path) && !marks_civil(code, title, path) && !marks_chemical_engineering(code, title, path) && !marks_mathematics(code, title, path) && !marks_physics(code, title, path) && !marks_chemistry(code, title, path) && !marks_biotechnology(code, title, path) && !marks_media(code, title, path) && !marks_humanities(code, title, path) ==> department_of(code, title, path) == "General & Interdisciplinary"@,
{
    if marks_computer_science(code, title, path) {
        lemma_some_mark_of_computer_science(code, title, path);
    } else {
        lemma_unmarked_computer_science(code, title, path);
        if marks_electronics(code, title, path) {
            lemma_some_mark_of_electronics(code, title, path);
        } else {
            lemma_unmarked_electronics(code, title, path);
            if marks_electrical(code, title, path) {
                lemma_some_mark_of_electrical(code, title, path);
            } else {
                lemma_unmarked_electrical(code, title, path);
                if marks_mechanical(code, title, path) {
                    lemma_some_mark_of_mechanical(code, title, path);
                } else {
                    lemma_unmarked_mechanical(code, title, path);
                    if marks_civil(code, title, path) {
                        lemma_some_mark_of_civil(code, title, path);
                    } else {
                        lemma_unmarked_civil(code, title, path);
                        if marks_chemical_engineering(code, title, path) {
                            lemma_some_mark_of_chemical_engineering(code, title, path);
                        } else {
                            lemma_unmarked_chemical_engineering(code, title, path);
                            if marks_mathematics(code, title, path) {
                                lemma_some_mark_of_mathematics(code, title, path);
                            } else {
                                lemma_unmarked_mathematics(code, title, path);
                                if marks_physics(code, title, path) {
                                    lemma_some_mark_of_physics(code, title, path);
                                } else {
                                    lemma_unmarked_physics(code, title, path);
                                    if marks_chemistry(code, title, path) {
                                        lemma_some_mark_of_chemistry(code, title, path);
                                    } else {
                                        lemma_unmarked_chemistry(code, title, path);
                                        if marks_biotechnology(code, title, path) {
                                            lemma_some_mark_of_biotechnology(code, title, path);
                                        } else {
                                            lemma_unmarked_biotechnology(code, title, path);
                                            if marks_media(code, title, path) {
                                                lemma_some_mark_of_media(code, title, path);
                                            } else {
                                                lemma_unmarked_media(code, title, path);
                                                if marks_humanities(code, title, path) {
                                                    lemma_some_mark_of_humanities(code, title, path);
                                                } else {
                                                    lemma_unmarked_humanities(code, title, path);
                                                }
                                            }
                                        }
                                    }
                                }
                            }
                        }
                    }
                }
            }
        }
    }
}

pub fn classify_department(code: &str, title: &str, path_str: &str) -> (r: String)
    ensures
        r@ == department_of(code@, title@, path_str@),
{
    let cv = chars_of(code);
    let c = to_uppercase(cv.as_slice());
    let tv = chars_of(title);
    let t = to_lowercase(tv.as_slice());
    let pv = chars_of(path_str);
    let p = to_lowercase(pv.as_slice());
    if mentions(&c, "CSE")
        || mentions(&c, "CSC")
        || mentions(&c, "CSA")
        || mentions(&c, "CS6")
        || mentions(&c, "CS7")
        || mentions(&c, "CS8")
        || mentions(&c, "CYS")
        || mentions(&c, "AIE")
        || mentions(&c, "CCE")
        || mentions(&c, "CA3")
        || mentions(&c, "CA4")
        || mentions(&t, "computer")
        || mentions(&t, "software")
        || mentions(&t, "data structure")
        || mentions(&t, "algorithm")
        || mentions(&t, "cyber")
        || mentions(&t, "database") {
        owned("Computer Science & Engineering")
    } else if mentions(&c, "ECE")
        || mentions(&c, "ELC")
        || mentions(&c, "EIE")
        || mentions(&c, "VL6")
        || mentions(&c, "VL7")
        || mentions(&c, "VL8")
        || mentions(&c, "EC1")
        || mentions(&c, "EC2")
        || mentions(&c, "EC8")
        || mentions(&t, "electronics")
        || mentions(&t, "signal")
        || mentions(&t, "vlsi")
        || mentions(&t, "embedded") {
        owned("Electronics & Communication")
    } else if mentions(&c, "EEE")
        || mentions(&c, "AEE")
        || mentions(&c, "ES6")
        || mentions(&c, "PE6")
        || mentions(&c, "PE7")
        || mentions(&c, "CIE")
        || mentions(&c, "RE7")
        || mentions(&t, "electrical")
        || mentions(&t, "power")
        || mentions(&t, "high voltage") {
        owned("Electrical & Electronics")
    } else if mentions(&c, "MEC")
        || mentions(&c, "MEE")
        || mentions(&c, "AES")
        || mentions(&c, "AT6")
        || mentions(&c, "ME7")
        || mentions(&c, "ME8")
        || mentions(&c, "WME")
        || mentions(&t, "mechanical")
        || mentions(&t, "thermal")
        || mentions(&t, "combustion")
        || mentions(&t, "automotive") {
        owned("Mechanical & Aerospace")
    } else if mentions(&c, "CVL")
        || mentions(&c, "CE7")
        || mentions(&c, "CEN")
        || mentions(&c, "ED6")
        || mentions(&c, "SC7")
        || mentions(&t, "civil")
        || mentions(&t, "structural") {
        owned("Civil Engineering")
    } else if mentions(&c, "CHE")
        || mentions(&c, "CH6")
        || mentions(&c, "SC6")
        || mentions(&t, "chemical engineering") {
        owned("Chemical Engineering")
    } else if mentions(&c, "MAT")
        || mentions(&c, "MA6")
        || mentions(&c, "MA7")
        || mentions(&c, "MA8")
        || mentions(&c, "MA9")
        || mentions(&c, "MAL")
        || mentions(&t, "mathematics")
        || mentions(&t, "calculus")
        || mentions(&t, "algebra")
        || mentions(&t, "statistic") {
        owned("Mathematics & Statistics")
    } else if mentions(&c, "PHY")
        || mentions(&c, "PH6")
        || mentions(&c, "PH7")
        || mentions(&t, "physics") {
        owned("Physical Sciences")
    } else if mentions(&c, "CHY")
        || mentions(&c, "CY6")
        || mentions(&c, "CY7")
        || mentions(&c, "CY4")
        || mentions(&t, "chemistry") {
        owned("Chemical Sciences")
    } else if mentions(&c, "BIO")
        || mentions(&c, "BM6")
        || mentions(&c, "BM7")
        || mentions(&c, "BM8")
        || mentions(&c, "BMT")
        || mentions(&c, "HOR")
        || mentions(&c, "GPB")
        || mentions(&c, "SS8")
        || mentions(&t, "bio")
        || mentions(&t, "medical") {
        owned("Biotechnology & Health")
    } else if mentions(&c, "CMJ")
        || mentions(&c, "COM")
        || mentions(&c, "DDA")
        || mentions(&t, "media")
        || mentions(&t, "journalism")
        || mentions(&t, "communication") {
        owned("Media & Communication")
    } else if mentions(&c, "HUM")
        || mentions(&c, "ELL")
        || mentions(&c, "ENG")
        || mentions(&c, "TAM")
        || mentions(&c, "GER")
        || mentions(&c, "FRE")
        || mentions(&c, "MAL")
        || mentions(&c, "FSN")
        || mentions(&c, "SOC")
        || mentions(&c, "SWK")
        || mentions(&c, "SW")
        || mentions(&p, "social work")
        || mentions(&t, "english")
        || mentions(&t, "social")
        || mentions(&t, "culture") {
        owned("Humanities & Social Sciences")
    } else {
        owned("General & Interdisciplinary")
    }
}

/// The kind of course: lab, open elective, department elective or core.
pub open spec fn course_category_of(code: Seq<char>, title: Seq<char>) -> Seq<char> {
    let c = uppercase(code);
    let t = lowercase(title);
    if contains(t, "lab"@) || contains(t, "laboratory"@) || contains(t, "practical"@) || contains(
        t,
        "workshop"@,
    ) || (c.len() > 0 && c.last() == 'L') {
        "Lab"@
    } else if crate::text::starts_with(c, "OEL"@) || contains(t, "open elective"@) || contains(
        t,
        "science of food"@,
    ) || contains(t, "human values"@) {
        "OpenElective"@
    } else if contains(c, "35"@) || contains(c, "36"@) || contains(c, "45"@) || contains(c, "46"@)
        || contains(c, "71"@) || contains(c, "72"@) || contains(t, "elective"@) || contains(
        t,
        "specialization"@,
    ) {
        "DeptElective"@
    } else {
        "Core"@
    }
}

pub fn classify_course_category(code: &str, title: &str) -> (r: String)
    ensures
        r@ == course_category_of(code@, title@),
{
    let cv = chars_of(code);
    let c = to_uppercase(cv.as_slice());
    let tv = chars_of(title);
    let t = to_lowercase(tv.as_slice());
    let oel = chars_of("OEL");
    if mentions(&t, "lab") || mentions(&t, "laboratory") || mentions(&t, "practical") || mentions(&t, "workshop") || (
    c.len() > 0 && c[c.len() - 1] == 'L') {
        owned("Lab")
    } else if starts_with_in(c.as_slice(), oel.as_slice()) || mentions(&t, "open elective") || mentions(
        &t,
        "science of food",
    ) || mentions(&t, "human values") {
        owned("OpenElective")
    } else if mentions(&c, "35") || mentions(&c, "36") || mentions(&c, "45") || mentions(&c, "46") || mentions(&c, "71")
        || mentions(&c, "72") || mentions(&t, "elective") || mentions(&t, "specialization") {
        owned("DeptElective")
    } else {
        owned("Core")
    }
}

/// The ASCII digits of `s`, in order.
pub open spec fn digits_in(s: Seq<char>) -> Seq<char>
    decreases s.len(),
{
    if s.len() == 0 {
        seq![]
    } else if crate::text::is_ascii_digit(s.last()) {
        digits_in(s.drop_last()).push(s.last())
    } else {
        digits_in(s.drop_last())
    }
}

/// The level of a course, from the first digit of its code when the code
/// holds three digits or more.
pub open spec fn course_level_of(code: Seq<char>) -> Seq<char> {
    let d = digits_in(code);
    if d.len() >= 3 {
        if d[0] == '1' {
            "100-Level Introductory"@
        } else if d[0] == '2' {
            "200-Level Core"@
        } else if d[0] == '3' {
            "300-Level Intermediate"@
        } else if d[0] == '4' {
            "400-Level Senior Electives"@
        } else if d[0] == '5' || d[0] == '6' {
            "500-600 Level Master's"@
        } else if d[0] == '7' || d[0] == '8' {
            "700-800 Level Advanced PhD"@
        } else {
            "General Level"@
        }
    } else {
        "General Level"@
    }
}

pub fn classify_course_level(code: &str) -> (r: String)
    ensures
        r@ == course_level_of(code@),
{
    let cv = chars_of(code);
    let mut d: Vec<char> = Vec::new();
    let mut i: usize = 0;
    while i < cv.len()
        invariant
            i <= cv@.len(),
            d@ == digits_in(cv@.take(i as int)),
        decreases cv@.len() - i,
    {
        assert(cv@.take(i + 1).drop_last() =~= cv@.take(i as int));
        if crate::text::is_digit(cv[i]) {
            d.push(cv[i]);
        }
        i = i + 1;
    }
    assert(cv@.take(cv@.len() as int) =~= cv@);
    if d.len() >= 3 {
        let f = d[0];
        if f == '1' {
            owned("100-Level Introductory")
        } else if f == '2' {
            owned("200-Level Core")
        } else if f == '3' {
            owned("300-Level Intermediate")
        } else if f == '4' {
            owned("400-Level Senior Electives")
        } else if f == '5' || f == '6' {
            owned("500-600 Level Master's")
        } else if f == '7' || f == '8' {
            owned("700-800 Level Advanced PhD")
        } else {
            owned("General Level")
        }
    } else {
        owned("General Level")
    }
}

} // verus!
