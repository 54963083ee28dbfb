//! Metadata of a paper, read from the header text of its first page and
//! from its file path.
use vstd::prelude::*;
use crate::catalog::{
    classify_course_category, classify_course_level, classify_department, clean_text,
    course_category_of, course_level_of, department_of, header_title, header_title_of, slug,
    slugify,
};
use crate::display::owned;
use crate::numbers::{
    i64_text, int_text, parse_i32, parse_i32_of, parse_u32, parse_u32_of, zero_padded, zero_padded_of,
};
use crate::patterns::{compile, regex_captures, regex_compiles, regex_found, Pattern};
use crate::text::{
    byte_len, byte_len_capped, chars_of, join, contains, contains_in, find, find_in, lowercase, same,
    split_words, strip, strip_of, string_of, subslice, to_lowercase, trim, trim_of, views, words,
    CharClass,
};

verus! {

/// A course code: two year digits and letters and digits, letters and
/// digits, or letters, an optional space and digits.
pub const CATALOG_CODE_PATTERN: &'static str =
    r"(?i)\b([0-9]{2}[A-Z]{2,6}[0-9]{3,4}|[A-Z]{2,6}[0-9]{3,4}|[A-Z]{2,4}\s?[0-9]{3,4})";

/// A semester number in a path: `3rd Semester`, `5 semester`.
pub const SEMESTER_PATTERN: &'static str = r"(?i)(\d+)(st|nd|rd|th)?\s*Semester";

/// A year from 1980 to 2099 in a path, preferably right after a slash.
pub const YEAR_PATTERN: &'static str = r"/(19[89]\d|20[0-9]{2})\b|\b(19[89]\d|20[0-9]{2})\b";

/// The three catalogue patterns compile.
pub open spec fn catalog_patterns_compile() -> bool {
    &&& regex_compiles(CATALOG_CODE_PATTERN@)
    &&& regex_compiles(SEMESTER_PATTERN@)
    &&& regex_compiles(YEAR_PATTERN@)
}

/// The three catalogue patterns, compiled.
pub struct CatalogPatterns {
    pub code: Pattern,
    pub semester: Pattern,
    pub year: Pattern,
}

impl CatalogPatterns {
    pub open spec fn wf(&self) -> bool {
        &&& self.code.source() == CATALOG_CODE_PATTERN@
        &&& self.semester.source() == SEMESTER_PATTERN@
        &&& self.year.source() == YEAR_PATTERN@
    }

    /// Compiles the patterns; `None` exactly when one does not compile.
    pub fn compile_all() -> (r: Option<CatalogPatterns>)
        ensures
            r is Some <==> catalog_patterns_compile(),
            r matches Some(p) ==> p.wf(),
    {
        let code = match compile(CATALOG_CODE_PATTERN) {
            Some(p) => p,
            None => return None,
        };
        let semester = match compile(SEMESTER_PATTERN) {
            Some(p) => p,
            None => return None,
        };
        let year = match compile(YEAR_PATTERN) {
            Some(p) => p,
            None => return None,
        };
        Some(CatalogPatterns { code, semester, year })
    }
}

/// What the catalogue records of a paper.
pub struct PdfMeta {
    pub original_path: String,
    pub course_code: String,
    pub course_title: String,
    pub department: String,
    pub program: String,
    pub semester: String,
    pub year: String,
    pub exam_type: String,
    pub course_level: String,
    pub course_category: String,
    pub sha256: String,
    pub confidence: String,
}

/// The text of each field of a `PdfMeta`.
#[verifier::ext_equal]
pub ghost struct MetaText {
    pub original_path: Seq<char>,
    pub course_code: Seq<char>,
    pub course_title: Seq<char>,
    pub department: Seq<char>,
    pub program: Seq<char>,
    pub semester: Seq<char>,
    pub year: Seq<char>,
    pub exam_type: Seq<char>,
    pub course_level: Seq<char>,
    pub course_category: Seq<char>,
    pub sha256: Seq<char>,
    pub confidence: Seq<char>,
}

impl View for PdfMeta {
    type V = MetaText;

    open spec fn view(&self) -> MetaText {
        MetaText {
            original_path: self.original_path@,
            course_code: self.course_code@,
            course_title: self.course_title@,
            department: self.department@,
            program: self.program@,
            semester: self.semester@,
            year: self.year@,
            exam_type: self.exam_type@,
            course_level: self.course_level@,
            course_category: self.course_category@,
            sha256: self.sha256@,
            confidence: self.confidence@,
        }
    }
}

/// A record of a file with nothing known yet but its path: empty fields and
/// low confidence.
pub fn new_meta(original_path: &str) -> (m: PdfMeta)
    ensures
        m@ == (MetaText {
            original_path: original_path@,
            course_code: seq![],
            course_title: seq![],
            department: seq![],
            program: seq![],
            semester: seq![],
            year: seq![],
            exam_type: seq![],
            course_level: seq![],
            course_category: seq![],
            sha256: seq![],
            confidence: "low"@,
        }),
{
    PdfMeta {
        original_path: owned(original_path),
        course_code: String::new(),
        course_title: String::new(),
        department: String::new(),
        program: String::new(),
        semester: String::new(),
        year: String::new(),
        exam_type: String::new(),
        course_level: String::new(),
        course_category: String::new(),
        sha256: String::new(),
        confidence: owned("low"),
    }
}

// ---------------------------------------------------------------------------
// Lines of text
// ---------------------------------------------------------------------------

/// `str::lines`: the text split at each `\n` (a final line break ends the
/// last line; a `\r` before it is left to trimming).
pub open spec fn lines_of(s: Seq<char>) -> Seq<Seq<char>>
    decreases s.len(),
{
    match find(s, seq!['\n']) {
        Some(p) => {
            proof {
                crate::text::lemma_find(s, seq!['\n']);
            }
            seq![s.take(p)] + lines_of(s.skip(p + 1))
        },
        None => if s.len() == 0 {
            seq![]
        } else {
            seq![s]
        },
    }
}

/// The trimmed lines that are not empty, in order.
pub open spec fn filled_lines(ls: Seq<Seq<char>>) -> Seq<Seq<char>>
    decreases ls.len(),
{
    if ls.len() == 0 {
        seq![]
    } else {
        let rest = filled_lines(ls.drop_last());
        if trim(ls.last()).len() > 0 {
            rest.push(trim(ls.last()))
        } else {
            rest
        }
    }
}

/// The trimmed, non-empty lines of extracted text.
pub open spec fn content_lines(text: Seq<char>) -> Seq<Seq<char>> {
    filled_lines(lines_of(text))
}

pub fn split_lines(s: &[char]) -> (r: Vec<Vec<char>>)
    ensures
        views(r@) == lines_of(s@),
{
    let mut out: Vec<Vec<char>> = Vec::new();
    let mut start: usize = 0;
    let mut nl: Vec<char> = Vec::new();
    nl.push('\n');
    assert(nl@ =~= seq!['\n']);
    assert(s@.skip(0) =~= s@);
    assert(views(out@) + lines_of(s@) =~= lines_of(s@));
    loop
        invariant
            start <= s@.len(),
            nl@ == seq!['\n'],
            lines_of(s@) == views(out@) + lines_of(s@.skip(start as int)),
        decreases s@.len() - start,
    {
        let rest = subslice(s, start, s.len());
        assert(rest@ =~= s@.skip(start as int));
        match find_in(rest.as_slice(), nl.as_slice()) {
            Some(p) => {
                proof {
                    crate::text::lemma_find(rest@, seq!['\n']);
                }
                let line = subslice(rest.as_slice(), 0, p);
                assert(line@ =~= rest@.take(p as int));
                assert(rest@.skip(p + 1) =~= s@.skip(start + p + 1));
                let ghost before = views(out@);
                out.push(line);
                assert(views(out@) =~= before.push(line@));
                assert(lines_of(rest@) == seq![rest@.take(p as int)] + lines_of(rest@.skip(p + 1)));
                assert(before + lines_of(rest@) =~= views(out@) + lines_of(rest@.skip(p + 1)));
                start = start + p + 1;
            },
            None => {
                if rest.len() > 0 {
                    let ghost before = views(out@);
                    out.push(rest);
                    assert(views(out@) =~= before + lines_of(s@.skip(start as int)));
                } else {
                    assert(views(out@) + lines_of(s@.skip(start as int)) =~= views(out@));
                }
                return out;
            },
        }
    }
}

pub fn content_lines_of(text: &[char]) -> (r: Vec<Vec<char>>)
    ensures
        views(r@) == content_lines(text@),
{
    let ls = split_lines(text);
    let mut out: Vec<Vec<char>> = Vec::new();
    let mut i: usize = 0;
    while i < ls.len()
        invariant
            i <= ls@.len(),
            views(out@) == filled_lines(views(ls@).take(i as int)),
        decreases ls@.len() - i,
    {
        let t = trim_of(ls[i].as_slice());
        proof {
            assert(views(ls@).take(i + 1).drop_last() =~= views(ls@).take(i as int));
            assert(views(ls@)[i as int] == ls@[i as int]@);
        }
        if t.len() > 0 {
            let ghost before = views(out@);
            out.push(t);
            assert(views(out@) =~= before.push(t@));
        }
        i = i + 1;
    }
    assert(views(ls@).take(ls@.len() as int) =~= views(ls@));
    out
}


// ---------------------------------------------------------------------------
// The header of the first page
// ---------------------------------------------------------------------------

fn includes(s: &Vec<char>, pat: &str) -> (b: bool)
    ensures
        b == contains(s@, pat@),
{
    let p = chars_of(pat);
    contains_in(s.as_slice(), p.as_slice())
}

/// The degree program a lower-cased header line names.
pub open spec fn header_program(l: Seq<char>) -> Option<Seq<char>> {
    if contains(l, "b.tech"@) || contains(l, "bachelor of technology"@) {
        Some("B.Tech"@)
    } else if contains(l, "m.tech"@) || contains(l, "master of technology"@) {
        Some("M.Tech"@)
    } else if contains(l, "mca"@) || contains(l, "master of computer applications"@) {
        Some("MCA"@)
    } else if contains(l, "ph.d"@) || contains(l, "phd"@) {
        Some("PhD"@)
    } else if contains(l, "int. m.sc"@) || contains(l, "integrated msc"@) || contains(l, "integrated m.sc"@) || contains(l, "integrated ma"@) {
        Some("Integrated M.Sc."@)
    } else if contains(l, "msw"@) || contains(l, "master of social work"@) {
        Some("MSW"@)
    } else {
        None
    }
}

/// The semester a lower-cased header line names.
pub open spec fn header_semester(l: Seq<char>) -> Option<Seq<char>> {
    if contains(l, "first semester"@) || contains(l, "1st semester"@) || contains(l, "i sem "@) || contains(l, "i semester"@) {
        Some("Sem01"@)
    } else if contains(l, "second semester"@) || contains(l, "2nd semester"@) || contains(l, "ii sem "@) || contains(l, "ii semester"@) {
        Some("Sem02"@)
    } else if contains(l, "third semester"@) || contains(l, "3rd semester"@) || contains(l, "iii sem "@) || contains(l, "iii semester"@) {
        Some("Sem03"@)
    } else if contains(l, "fourth semester"@) || contains(l, "4th semester"@) || contains(l, "iv sem "@) || contains(l, "iv semester"@) {
        Some("Sem04"@)
    } else if contains(l, "fifth semester"@) || contains(l, "5th semester"@) || contains(l, "v sem "@) || contains(l, "v semester"@) {
        Some("Sem05"@)
    } else if contains(l, "sixth semester"@) || contains(l, "6th semester"@) || contains(l, "vi sem "@) || contains(l, "vi semester"@) {
        Some("Sem06"@)
    } else if contains(l, "seventh semester"@) || contains(l, "7th semester"@) || contains(l, "vii sem "@) || contains(l, "vii semester"@) {
        Some("Sem07"@)
    } else if contains(l, "eighth semester"@) || contains(l, "8th semester"@) || contains(l, "viii sem "@) || contains(l, "viii semester"@) {
        Some("Sem08"@)
    } else if contains(l, "ninth semester"@) || contains(l, "9th semester"@) || contains(l, "ix sem "@) || contains(l, "ix semester"@) {
        Some("Sem09"@)
    } else if contains(l, "tenth semester"@) || contains(l, "10th semester"@) || contains(l, "x sem "@) || contains(l, "x semester"@) {
        Some("Sem10"@)
    } else {
        None
    }
}

/// The exam type a lower-cased header line names.
pub open spec fn header_exam(l: Seq<char>) -> Option<Seq<char>> {
    if contains(l, "first assessment"@) || contains(l, "ass i "@) || contains(l, "i ass"@) {
        Some("Ass1"@)
    } else if contains(l, "second assessment"@) || contains(l, "ass ii "@) || contains(l, "ii ass"@) {
        Some("Ass2"@)
    } else if contains(l, "third assessment"@) || contains(l, "ass iii "@) || contains(l, "iii ass"@) {
        Some("Ass3"@)
    } else if contains(l, "mid-term"@) || contains(l, "mid term"@) || contains(l, "midterm"@) {
        Some("MidTerm"@)
    } else if contains(l, "degree examination"@) || contains(l, "end semester"@) || contains(l, "end sem"@) {
        Some("EndSem"@)
    } else {
        None
    }
}

fn header_program_of(l: &Vec<char>) -> (r: Option<String>)
    ensures
        r matches Some(v) ==> header_program(l@) == Some(v@),
        r is None ==> header_program(l@) is None,
{
    if includes(l, "b.tech") || includes(l, "bachelor of technology") {
        Some(owned("B.Tech"))
    } else if includes(l, "m.tech") || includes(l, "master of technology") {
        Some(owned("M.Tech"))
    } else if includes(l, "mca") || includes(l, "master of computer applications") {
        Some(owned("MCA"))
    } else if includes(l, "ph.d") || includes(l, "phd") {
        Some(owned("PhD"))
    } else if includes(l, "int. m.sc") || includes(l, "integrated msc") || includes(l, "integrated m.sc") || includes(l, "integrated ma") {
        Some(owned("Integrated M.Sc."))
    } else if includes(l, "msw") || includes(l, "master of social work") {
        Some(owned("MSW"))
    } else {
        None
    }
}

fn header_semester_of(l: &Vec<char>) -> (r: Option<String>)
    ensures
        r matches Some(v) ==> header_semester(l@) == Some(v@),
        r is None ==> header_semester(l@) is None,
{
    if includes(l, "first semester") || includes(l, "1st semester") || includes(l, "i sem ") || includes(l, "i semester") {
        Some(owned("Sem01"))
    } else if includes(l, "second semester") || includes(l, "2nd semester") || includes(l, "ii sem ") || includes(l, "ii semester") {
        Some(owned("Sem02"))
    } else if includes(l, "third semester") || includes(l, "3rd semester") || includes(l, "iii sem ") || includes(l, "iii semester") {
        Some(owned("Sem03"))
    } else if includes(l, "fourth semester") || includes(l, "4th semester") || includes(l, "iv sem ") || includes(l, "iv semester") {
        Some(owned("Sem04"))
    } else if includes(l, "fifth semester") || includes(l, "5th semester") || includes(l, "v sem ") || includes(l, "v semester") {
        Some(owned("Sem05"))
    } else if includes(l, "sixth semester") || includes(l, "6th semester") || includes(l, "vi sem ") || includes(l, "vi semester") {
        Some(owned("Sem06"))
    } else if includes(l, "seventh semester") || includes(l, "7th semester") || includes(l, "vii sem ") || includes(l, "vii semester") {
        Some(owned("Sem07"))
    } else if includes(l, "eighth semester") || includes(l, "8th semester") || includes(l, "viii sem ") || includes(l, "viii semester") {
        Some(owned("Sem08"))
    } else if includes(l, "ninth semester") || includes(l, "9th semester") || includes(l, "ix sem ") || includes(l, "ix semester") {
        Some(owned("Sem09"))
    } else if includes(l, "tenth semester") || includes(l, "10th semester") || includes(l, "x sem ") || includes(l, "x semester") {
        Some(owned("Sem10"))
    } else {
        None
    }
}

fn header_exam_of(l: &Vec<char>) -> (r: Option<String>)
    ensures
        r matches Some(v) ==> header_exam(l@) == Some(v@),
        r is None ==> header_exam(l@) is None,
{
    if includes(l, "first assessment") || includes(l, "ass i ") || includes(l, "i ass") {
        Some(owned("Ass1"))
    } else if includes(l, "second assessment") || includes(l, "ass ii ") || includes(l, "ii ass") {
        Some(owned("Ass2"))
    } else if includes(l, "third assessment") || includes(l, "ass iii ") || includes(l, "iii ass") {
        Some(owned("Ass3"))
    } else if includes(l, "mid-term") || includes(l, "mid term") || includes(l, "midterm") {
        Some(owned("MidTerm"))
    } else if includes(l, "degree examination") || includes(l, "end semester") || includes(l, "end sem") {
        Some(owned("EndSem"))
    } else {
        None
    }
}


/// A token of a header line read as a year: the token without surrounding
/// non-digits, when that is four bytes naming a year from 2000 to
/// `max_year`; else the year found so far.
pub open spec fn token_year(found: Seq<char>, token: Seq<char>, max_year: int) -> Seq<char> {
    let c = strip(token, CharClass::NotAsciiDigit);
    if byte_len(c) == 4 && parse_i32(c) is Some && 2000 <= parse_i32(c)->0 <= max_year {
        c
    } else {
        found
    }
}

/// The last token of `tokens` read as a year, else `found`.
pub open spec fn tokens_year(found: Seq<char>, tokens: Seq<Seq<char>>, max_year: int) -> Seq<char>
    decreases tokens.len(),
{
    if tokens.len() == 0 {
        found
    } else {
        token_year(tokens_year(found, tokens.drop_last(), max_year), tokens.last(), max_year)
    }
}

/// A header line read into the record: program, semester, exam type and
/// year, each where the line names one.
pub open spec fn read_header_line(m: MetaText, line: Seq<char>, max_year: int) -> MetaText {
    let l = lowercase(line);
    MetaText {
        program: match header_program(l) {
            Some(v) => v,
            None => m.program,
        },
        semester: match header_semester(l) {
            Some(v) => v,
            None => m.semester,
        },
        exam_type: match header_exam(l) {
            Some(v) => v,
            None => m.exam_type,
        },
        year: tokens_year(m.year, words(line), max_year),
        ..m
    }
}

/// The header lines read in order.
pub open spec fn read_header(m: MetaText, lines: Seq<Seq<char>>, max_year: int) -> MetaText
    decreases lines.len(),
{
    if lines.len() == 0 {
        m
    } else {
        read_header_line(read_header(m, lines.drop_last(), max_year), lines.last(), max_year)
    }
}

fn token_year_of(found: String, token: &[char], max_year: i64) -> (r: String)
    ensures
        r@ == token_year(found@, token@, max_year as int),
{
    let c = strip_of(token, CharClass::NotAsciiDigit);
    if byte_len_capped(c.as_slice(), 5) == 4 {
        match parse_i32_of(c.as_slice()) {
            Some(y) => {
                if 2000 <= y as i64 && y as i64 <= max_year {
                    return string_of(c.as_slice());
                }
            },
            None => {},
        }
    }
    found
}

fn read_header_line_of(m: PdfMeta, line: &[char], max_year: i64) -> (r: PdfMeta)
    ensures
        r@ == read_header_line(m@, line@, max_year as int),
{
    let l = to_lowercase(line);
    let mut m = m;
    match header_program_of(&l) {
        Some(v) => m.program = v,
        None => {},
    }
    match header_semester_of(&l) {
        Some(v) => m.semester = v,
        None => {},
    }
    match header_exam_of(&l) {
        Some(v) => m.exam_type = v,
        None => {},
    }
    let toks = split_words(line);
    let mut year = m.year;
    let ghost y0 = year@;
    let mut i: usize = 0;
    while i < toks.len()
        invariant
            i <= toks@.len(),
            year@ == tokens_year(y0, views(toks@).take(i as int), max_year as int),
        decreases toks@.len() - i,
    {
        proof {
            assert(views(toks@).take(i + 1).drop_last() =~= views(toks@).take(i as int));
            assert(views(toks@)[i as int] == toks@[i as int]@);
        }
        year = token_year_of(year, toks[i].as_slice(), max_year);
        i = i + 1;
    }
    assert(views(toks@).take(toks@.len() as int) =~= views(toks@));
    m.year = year;
    m
}

/// Reads the first fifteen content lines of the header into the record.
pub fn read_header_of(m: PdfMeta, lines: &Vec<Vec<char>>, max_year: i64) -> (r: PdfMeta)
    ensures
        r@ == read_header(m@, views(lines@).take(
            if lines@.len() > 15 {
                15
            } else {
                lines@.len() as int
            },
        ), max_year as int),
{
    let n: usize = if lines.len() > 15 {
        15
    } else {
        lines.len()
    };
    let mut m = m;
    let ghost m0 = m@;
    let mut i: usize = 0;
    while i < n
        invariant
            n <= lines@.len(),
            i <= n,
            m@ == read_header(m0, views(lines@).take(i as int), max_year as int),
        decreases n - i,
    {
        proof {
            assert(views(lines@).take(i + 1).drop_last() =~= views(lines@).take(i as int));
            assert(views(lines@)[i as int] == lines@[i as int]@);
        }
        m = read_header_line_of(m, lines[i].as_slice(), max_year);
        i = i + 1;
    }
    m
}

// ---------------------------------------------------------------------------
// Course code and title from the page text
// ---------------------------------------------------------------------------

/// The lines searched in order for a course code followed by a usable
/// title: each line with a code records the code; the first whose text
/// after the code gives a title of three bytes or more also records that
/// title with high confidence, and the search stops there.
pub open spec fn read_code_lines(m: MetaText, lines: Seq<Seq<char>>) -> MetaText
    decreases lines.len(),
{
    if lines.len() == 0 {
        m
    } else {
        match regex_found(CATALOG_CODE_PATTERN@, lines[0]) {
            Some((code, rest)) => {
                let m2 = MetaText { course_code: code, ..m };
                let t = header_title(rest);
                if t.len() > 0 && t != "UNKNOWN"@ && byte_len(t) > 2 {
                    MetaText { course_title: t, confidence: "high"@, ..m2 }
                } else {
                    read_code_lines(m2, lines.skip(1))
                }
            },
            None => read_code_lines(m, lines.skip(1)),
        }
    }
}

pub fn read_code_lines_of(pats: &CatalogPatterns, meta: PdfMeta, lines: &Vec<Vec<char>>) -> (r: PdfMeta)
    requires
        pats.wf(),
    ensures
        r@ == read_code_lines(meta@, views(lines@)),
{
    let mut m = meta;
    let ghost m0 = m@;
    let mut i: usize = 0;
    assert(views(lines@).skip(0) =~= views(lines@));
    while i < lines.len()
        invariant
            pats.wf(),
            m0 == meta@,
            i <= lines@.len(),
            read_code_lines(m0, views(lines@)) == read_code_lines(m@, views(lines@).skip(i as int)),
        decreases lines@.len() - i,
    {
        let ghost rest = views(lines@).skip(i as int);
        assert(rest[0] == lines@[i as int]@);
        assert(rest.skip(1) =~= views(lines@).skip(i + 1));
        let line = string_of(lines[i].as_slice());
        let ghost before = m@;
        match crate::patterns::find(&pats.code, line.as_str()) {
            Some((code, remainder)) => {
                assert(regex_found(CATALOG_CODE_PATTERN@, rest[0]) == Some((code@, remainder@)));
                m.course_code = code;
                assert(m@ == MetaText { course_code: code@, ..before });
                let rv = chars_of(remainder.as_str());
                let t = header_title_of(rv.as_slice());
                let unknown = chars_of("UNKNOWN");
                if t.len() > 0 && !same(t.as_slice(), unknown.as_slice()) && byte_len_capped(
                    t.as_slice(),
                    3,
                ) > 2 {
                    m.course_title = string_of(t.as_slice());
                    m.confidence = owned("high");
                    proof {
                        let m2 = MetaText { course_code: code@, ..before };
                        assert(t@ == header_title(remainder@));
                        assert(byte_len(t@) > 2);
                        assert(t@ != "UNKNOWN"@);
                        assert(read_code_lines(before, rest) == MetaText {
                            course_title: t@,
                            confidence: "high"@,
                            ..m2
                        });
                        assert(m@ == MetaText { course_title: t@, confidence: "high"@, ..m2 });
                        assert(m@ == read_code_lines(m0, views(lines@)));
                    }
                    return m;
                }
            },
            None => {},
        }
        i = i + 1;
    }
    m
}


// ---------------------------------------------------------------------------
// Metadata from the file path
// ---------------------------------------------------------------------------

/// `Path::file_name` of a path (empty when there is none), named for its result.
pub uninterp spec fn path_file_name(path: Seq<char>) -> Seq<char>;

/// `Path::parent` of a path, named for its result.
pub uninterp spec fn path_parent(path: Seq<char>) -> Option<Seq<char>>;

/// Calls `Path::file_name`; the result is named `path_file_name`.
#[verifier::external_body]
pub(crate) fn file_name_of(path: &str) -> (r: String)
    ensures
        r@ == path_file_name(path@),
{
    std::path::Path::new(path).file_name().unwrap_or_default().to_string_lossy().to_string()
}

/// Calls `Path::parent`; the result is named `path_parent`.
#[verifier::external_body]
pub(crate) fn parent_of(path: &str) -> (r: Option<String>)
    ensures
        r matches Some(p) ==> path_parent(path@) == Some(p@),
        r is None ==> path_parent(path@) is None,
{
    std::path::Path::new(path).parent().map(|p| p.to_string_lossy().to_string())
}

/// The text before the first `c` (all of it when there is none).
pub open spec fn before_char(s: Seq<char>, c: char) -> Seq<char> {
    match find(s, seq![c]) {
        Some(p) => s.take(p),
        None => s,
    }
}

/// `str::replace(pat, "")`: every occurrence of `pat`, left to right, removed.
pub open spec fn remove_all(s: Seq<char>, pat: Seq<char>) -> Seq<char>
    decreases s.len(),
{
    if pat.len() == 0 {
        s
    } else {
        match find(s, pat) {
            Some(p) => {
                proof {
                    crate::text::lemma_find(s, pat);
                }
                s.take(p) + remove_all(s.skip(p + pat.len()), pat)
            },
            None => s,
        }
    }
}

pub fn before_char_of(s: &[char], c: char) -> (r: Vec<char>)
    ensures
        r@ == before_char(s@, c),
{
    let mut pat: Vec<char> = Vec::new();
    pat.push(c);
    assert(pat@ =~= seq![c]);
    match find_in(s, pat.as_slice()) {
        Some(p) => {
            proof {
                crate::text::lemma_find(s@, seq![c]);
            }
            let r = subslice(s, 0, p);
            assert(r@ =~= s@.take(p as int));
            r
        },
        None => subslice_all(s),
    }
}

fn subslice_all(s: &[char]) -> (r: Vec<char>)
    ensures
        r@ == s@,
{
    let r = subslice(s, 0, s.len());
    assert(r@ =~= s@);
    r
}

fn remove_all_of(s: &[char], pat: &[char]) -> (r: Vec<char>)
    ensures
        r@ == remove_all(s@, pat@),
{
    if pat.len() == 0 {
        return subslice_all(s);
    }
    let mut out: Vec<char> = Vec::new();
    let mut start: usize = 0;
    assert(s@.skip(0) =~= s@);
    loop
        invariant
            pat@.len() > 0,
            start <= s@.len(),
            remove_all(s@, pat@) == out@ + remove_all(s@.skip(start as int), pat@),
        decreases s@.len() - start,
    {
        let rest = subslice(s, start, s.len());
        assert(rest@ =~= s@.skip(start as int));
        match find_in(rest.as_slice(), pat) {
            Some(p) => {
                proof {
                    crate::text::lemma_find(rest@, pat@);
                }
                let piece = subslice(rest.as_slice(), 0, p);
                assert(piece@ =~= rest@.take(p as int));
                assert(rest@.skip(p + pat@.len()) =~= s@.skip(start + p + pat@.len()));
                let ghost before = out@;
                crate::text::append(&mut out, piece.as_slice());
                assert(before + remove_all(rest@, pat@) =~= out@ + remove_all(rest@.skip(p + pat@.len()), pat@));
                start = start + p + pat.len();
            },
            None => {
                crate::text::append(&mut out, rest.as_slice());
                return out;
            },
        }
    }
}

fn same_text(s: &Vec<char>, lit: &str) -> (b: bool)
    ensures
        b == (s@ == lit@),
{
    let p = chars_of(lit);
    same(s.as_slice(), p.as_slice())
}

fn concat3(a: &[char], b: &str, c: &[char]) -> (r: Vec<char>)
    ensures
        r@ == a@ + b@ + c@,
{
    let mut out = subslice_all(a);
    let bv = chars_of(b);
    crate::text::append(&mut out, bv.as_slice());
    crate::text::append(&mut out, c);
    out
}

/// The course code, when the page gave none: the first code in the file
/// name, else the file name up to its first `.` and `_`, else `UNKNOWN`.
pub open spec fn code_from_file_name(code: Seq<char>, fname: Seq<char>) -> Seq<char> {
    if code.len() > 0 {
        code
    } else {
        match regex_found(CATALOG_CODE_PATTERN@, fname) {
            Some((c, rest)) => c,
            None => {
                let cc = trim(before_char(before_char(fname, '.'), '_'));
                if cc.len() == 0 {
                    "UNKNOWN"@
                } else {
                    cc
                }
            },
        }
    }
}

/// A code without file-name suffixes (`16MA608_Ass II` to `16MA608`).
pub open spec fn code_without_suffix(code: Seq<char>) -> Seq<char> {
    if contains(code, "_"@) && trim(before_char(code, '_')).len() > 0 {
        trim(before_char(code, '_'))
    } else {
        code
    }
}

/// The title, when the page gave none or only the code: from the file name
/// without the code and `.pdf`, else from the folder name, else
/// `<code> Examination Paper`.
pub open spec fn title_from_path(title: Seq<char>, code: Seq<char>, fname: Seq<char>, parent: Option<Seq<char>>) -> Seq<char> {
    if title.len() == 0 || title == "UNKNOWN"@ || crate::text::eq_ascii_ci(title, code) {
        let clean = header_title(remove_all(remove_all(fname, code), ".pdf"@));
        if clean.len() == 0 || clean == "UNKNOWN"@ || crate::text::eq_ascii_ci(clean, code) {
            match parent {
                Some(pn) => {
                    let pc = header_title(pn);
                    if pc.len() > 0 && pc != "UNKNOWN"@ {
                        code + " ("@ + pc + ")"@
                    } else {
                        code + " Examination Paper"@
                    }
                },
                None => code + " Examination Paper"@,
            }
        } else {
            clean
        }
    } else {
        title
    }
}

/// The degree program named by a path.
pub open spec fn program_from_path(path: Seq<char>, prog: Seq<char>) -> Seq<char> {
    if contains(path, "B.Tech"@) || prog == "BTech"@ {
        "B.Tech"@
    } else if contains(path, "M.Tech"@) || prog == "MTech"@ {
        "M.Tech"@
    } else if contains(path, "MCA"@) {
        "MCA"@
    } else if contains(path, "PhD"@) || contains(path, "Ph.D"@) {
        "PhD"@
    } else if contains(path, "Integrated MSc"@) || contains(path, "Int. M.Sc"@) || contains(path, "Integrated"@) {
        "Integrated M.Sc."@
    } else if contains(path, "PG Diploma"@) {
        "PG Diploma"@
    } else if contains(path, "PG/"@) || contains(path, "PG\\"@) {
        "M.Sc."@
    } else if contains(path, "BA Communi"@) || contains(path, "BA Communication"@) || (contains(path, "Communication"@) && !contains(path, "Electronics"@)) {
        "B.A. Communication"@
    } else if contains(path, "Social Work"@) || contains(path, "MSW"@) {
        "MSW"@
    } else if contains(path, "Arts"@) || contains(path, "Humanities"@) {
        "Humanities"@
    } else if contains(path, "Science"@) {
        "M.Sc."@
    } else {
        "B.Tech"@
    }
}

/// The exam type named by a lower-cased path; end-semester otherwise.
pub open spec fn exam_from_path(l: Seq<char>) -> Seq<char> {
    if contains(l, "first assessment"@) || contains(l, "1st assessment"@) || contains(l, "ass i"@) {
        "Ass1"@
    } else if contains(l, "second assessment"@) || contains(l, "2nd assessment"@) || contains(l, "ass ii"@) {
        "Ass2"@
    } else if contains(l, "third assessment"@) || contains(l, "3rd assessment"@) || contains(l, "ass iii"@) {
        "Ass3"@
    } else if contains(l, "mid term"@) || contains(l, "mid-term"@) || contains(l, "midterm"@) {
        "MidTerm"@
    } else {
        "EndSem"@
    }
}

fn program_from_path_of(path: &Vec<char>, prog: &Vec<char>) -> (r: String)
    ensures
        r@ == program_from_path(path@, prog@),
{
    if includes(path, "B.Tech") || same_text(prog, "BTech") {
        owned("B.Tech")
    } else if includes(path, "M.Tech") || same_text(prog, "MTech") {
        owned("M.Tech")
    } else if includes(path, "MCA") {
        owned("MCA")
    } else if includes(path, "PhD") || includes(path, "Ph.D") {
        owned("PhD")
    } else if includes(path, "Integrated MSc") || includes(path, "Int. M.Sc") || includes(path, "Integrated") {
        owned("Integrated M.Sc.")
    } else if includes(path, "PG Diploma") {
        owned("PG Diploma")
    } else if includes(path, "PG/") || includes(path, "PG\\") {
        owned("M.Sc.")
    } else if includes(path, "BA Communi") || includes(path, "BA Communication") || (includes(path, "Communication") && !includes(path, "Electronics")) {
        owned("B.A. Communication")
    } else if includes(path, "Social Work") || includes(path, "MSW") {
        owned("MSW")
    } else if includes(path, "Arts") || includes(path, "Humanities") {
        owned("Humanities")
    } else if includes(path, "Science") {
        owned("M.Sc.")
    } else {
        owned("B.Tech")
    }
}

fn exam_from_path_of(l: &Vec<char>) -> (r: String)
    ensures
        r@ == exam_from_path(l@),
{
    if includes(l, "first assessment") || includes(l, "1st assessment") || includes(l, "ass i") {
        owned("Ass1")
    } else if includes(l, "second assessment") || includes(l, "2nd assessment") || includes(l, "ass ii") {
        owned("Ass2")
    } else if includes(l, "third assessment") || includes(l, "3rd assessment") || includes(l, "ass iii") {
        owned("Ass3")
    } else if includes(l, "mid term") || includes(l, "mid-term") || includes(l, "midterm") {
        owned("MidTerm")
    } else {
        owned("EndSem")
    }
}



/// The semester, when none is known: the number before `Semester` in the
/// path as `SemNN`, else `SemGeneral`.
pub open spec fn semester_from_path(sem: Seq<char>, path: Seq<char>) -> Seq<char> {
    if sem.len() > 0 {
        sem
    } else {
        match regex_captures(SEMESTER_PATTERN@, path) {
            Some(g) => if g.len() > 1 && g[1] is Some && parse_u32(g[1]->0) is Some {
                "Sem"@ + zero_padded(parse_u32(g[1]->0)->0 as nat, 2)
            } else {
                "SemGeneral"@
            },
            None => "SemGeneral"@,
        }
    }
}

/// The year a path names (the first matching group of the year pattern),
/// when it is from 1990 to the year after `current`.
pub open spec fn year_in_path(path: Seq<char>, current: i32) -> Option<Seq<char>> {
    match regex_captures(YEAR_PATTERN@, path) {
        Some(g) => {
            let m = if g.len() > 1 && g[1] is Some {
                g[1]
            } else if g.len() > 2 {
                g[2]
            } else {
                None
            };
            match m {
                Some(t) => match parse_i32(t) {
                    Some(y) => if 1990 <= y <= current + 1 {
                        Some(t)
                    } else {
                        None
                    },
                    None => None,
                },
                None => None,
            }
        },
        None => None,
    }
}

/// The year: the one the path names, else the one known, else `current`.
pub open spec fn year_from_path(year: Seq<char>, path: Seq<char>, current: i32) -> Seq<char> {
    let y = match year_in_path(path, current) {
        Some(t) => t,
        None => year,
    };
    if y.len() == 0 {
        int_text(current as int)
    } else {
        y
    }
}

/// A year outside 1990 to the year after `current` replaced by `current`.
pub open spec fn year_in_range(year: Seq<char>, current: i32) -> Seq<char> {
    match parse_i32(year) {
        Some(y) => if y < 1990 || y > current + 1 {
            int_text(current as int)
        } else {
            year
        },
        None => year,
    }
}

/// The folder name of a path's parent.
pub open spec fn parent_name(path: Seq<char>) -> Option<Seq<char>> {
    match path_parent(path) {
        Some(p) => Some(path_file_name(p)),
        None => None,
    }
}

/// The record completed from the file path (when the clock reads
/// `current`): code, title, program, semester, year and exam type filled
/// where missing, every field cleaned, and the course classified.
pub open spec fn meta_from_path(m: MetaText, path: Seq<char>, current: i32) -> MetaText {
    let fname = path_file_name(path);
    let code1 = code_without_suffix(code_from_file_name(m.course_code, fname));
    let title1 = title_from_path(m.course_title, code1, fname, parent_name(path));
    let prog1 = if m.program.len() == 0 || m.program == "BTech"@ || m.program == "MTech"@ {
        program_from_path(path, m.program)
    } else {
        m.program
    };
    let sem1 = semester_from_path(m.semester, path);
    let year1 = year_from_path(m.year, path, current);
    let exam1 = if m.exam_type.len() == 0 {
        exam_from_path(lowercase(path))
    } else {
        m.exam_type
    };
    let code = clean_text(code1);
    let title = header_title(title1);
    MetaText {
        course_code: code,
        course_title: title,
        program: clean_text(prog1),
        semester: clean_text(sem1),
        year: year_in_range(clean_text(year1), current),
        exam_type: clean_text(exam1),
        department: department_of(code, title, m.original_path),
        course_category: course_category_of(code, title),
        course_level: course_level_of(code),
        ..m
    }
}

fn code_from_file_name_of(pats: &CatalogPatterns, code: String, fname: &str) -> (r: Vec<char>)
    requires
        pats.wf(),
    ensures
        r@ == code_without_suffix(code_from_file_name(code@, fname@)),
{
    let cv = chars_of(code.as_str());
    let c1 = if cv.len() > 0 {
        cv
    } else {
        match crate::patterns::find(&pats.code, fname) {
            Some((c, _rest)) => chars_of(c.as_str()),
            None => {
                let fv = chars_of(fname);
                let a = before_char_of(fv.as_slice(), '.');
                let b = before_char_of(a.as_slice(), '_');
                let cc = trim_of(b.as_slice());
                if cc.len() == 0 {
                    chars_of("UNKNOWN")
                } else {
                    cc
                }
            },
        }
    };
    let underscore = chars_of("_");
    if contains_in(c1.as_slice(), underscore.as_slice()) {
        let b = before_char_of(c1.as_slice(), '_');
        let t = trim_of(b.as_slice());
        if t.len() > 0 {
            return t;
        }
    }
    c1
}

fn title_from_path_of(title: String, code: &[char], fname: &str, parent: Option<String>) -> (r: Vec<char>)
    ensures
        r@ == title_from_path(title@, code@, fname@, match parent {
            Some(p) => Some(p@),
            None => None,
        }),
{
    let tv = chars_of(title.as_str());
    let unknown = chars_of("UNKNOWN");
    if tv.len() == 0 || same(tv.as_slice(), unknown.as_slice()) || crate::text::eq_ignore_ascii_case(
        tv.as_slice(),
        code,
    ) {
        let fv = chars_of(fname);
        let a = remove_all_of(fv.as_slice(), code);
        let pdf = chars_of(".pdf");
        let b = remove_all_of(a.as_slice(), pdf.as_slice());
        let clean = header_title_of(b.as_slice());
        if clean.len() == 0 || same(clean.as_slice(), unknown.as_slice())
            || crate::text::eq_ignore_ascii_case(clean.as_slice(), code) {
            match parent {
                Some(pn) => {
                    let pnv = chars_of(pn.as_str());
                    let pc = header_title_of(pnv.as_slice());
                    if pc.len() > 0 && !same(pc.as_slice(), unknown.as_slice()) {
                        let open = concat3(code, " (", pc.as_slice());
                        let close = chars_of(")");
                        let mut out = open;
                        crate::text::append(&mut out, close.as_slice());
                        out
                    } else {
                        let e: Vec<char> = Vec::new();
                        let r = concat3(code, " Examination Paper", e.as_slice());
                        assert(r@ =~= code@ + " Examination Paper"@);
                        r
                    }
                },
                None => {
                    let e: Vec<char> = Vec::new();
                    let r = concat3(code, " Examination Paper", e.as_slice());
                    assert(r@ =~= code@ + " Examination Paper"@);
                    r
                },
            }
        } else {
            clean
        }
    } else {
        tv
    }
}

fn semester_from_path_of(pats: &CatalogPatterns, sem: String, path: &str) -> (r: Vec<char>)
    requires
        pats.wf(),
    ensures
        r@ == semester_from_path(sem@, path@),
{
    let sv = chars_of(sem.as_str());
    if sv.len() > 0 {
        return sv;
    }
    match crate::patterns::captures(&pats.semester, path) {
        Some(groups) => {
            proof {
                let g = groups@.map_values(|x: Option<String>| crate::patterns::opt_view(x));
                if groups@.len() > 1 {
                    assert(g[1] == crate::patterns::opt_view(groups@[1]));
                }
            }
            if groups.len() > 1 {
                match &groups[1] {
                    Some(t) => {
                        let tv = chars_of(t.as_str());
                        match parse_u32_of(tv.as_slice()) {
                            Some(n) => {
                                let mut out = chars_of("Sem");
                                let d = zero_padded_of(n as u64, 2);
                                crate::text::append(&mut out, d.as_slice());
                                return out;
                            },
                            None => {},
                        }
                    },
                    None => {},
                }
            }
            chars_of("SemGeneral")
        },
        None => chars_of("SemGeneral"),
    }
}

fn year_in_path_of(pats: &CatalogPatterns, path: &str, current: i32) -> (r: Option<Vec<char>>)
    requires
        pats.wf(),
    ensures
        r matches Some(t) ==> year_in_path(path@, current) == Some(t@),
        r is None ==> year_in_path(path@, current) is None,
{
    match crate::patterns::captures(&pats.year, path) {
        Some(groups) => {
            let ghost g = groups@.map_values(|x: Option<String>| crate::patterns::opt_view(x));
            let m: Option<Vec<char>> = if groups.len() > 1 && groups[1].is_some() {
                assert(g[1] == crate::patterns::opt_view(groups@[1]));
                match &groups[1] {
                    Some(t) => Some(chars_of(t.as_str())),
                    None => None,
                }
            } else if groups.len() > 2 {
                assert(g[2] == crate::patterns::opt_view(groups@[2]));
                assert(groups.len() > 1 ==> g[1] == crate::patterns::opt_view(groups@[1]));
                match &groups[2] {
                    Some(t) => Some(chars_of(t.as_str())),
                    None => None,
                }
            } else {
                None
            };
            match m {
                Some(t) => match parse_i32_of(t.as_slice()) {
                    Some(y) => if 1990 <= y as i64 && y as i64 <= current as i64 + 1 {
                        Some(t)
                    } else {
                        None
                    },
                    None => None,
                },
                None => None,
            }
        },
        None => None,
    }
}

fn year_in_range_of(year: &[char], current: i32) -> (r: Vec<char>)
    ensures
        r@ == year_in_range(year@, current),
{
    match parse_i32_of(year) {
        Some(y) => if (y as i64) < 1990 || y as i64 > current as i64 + 1 {
            i64_text(current as i64)
        } else {
            subslice_all(year)
        },
        None => subslice_all(year),
    }
}

/// Completes a record from the file path.
pub fn meta_from_path_of(pats: &CatalogPatterns, meta: PdfMeta, path: &str, current_year: i32) -> (r: PdfMeta)
    requires
        pats.wf(),
    ensures
        r@ == meta_from_path(meta@, path@, current_year),
{
    let ghost m0 = meta@;
    let mut m = meta;
    let fname = file_name_of(path);
    let code1 = code_from_file_name_of(pats, m.course_code, fname.as_str());
    let parent_dir = match parent_of(path) {
        Some(p) => Some(file_name_of(p.as_str())),
        None => None,
    };
    let title1 = title_from_path_of(m.course_title, code1.as_slice(), fname.as_str(), parent_dir);
    let pv = chars_of(m.program.as_str());
    let path_v = chars_of(path);
    let prog1 = if pv.len() == 0 || same_text(&pv, "BTech") || same_text(&pv, "MTech") {
        program_from_path_of(&path_v, &pv)
    } else {
        string_of(pv.as_slice())
    };
    let sem1 = semester_from_path_of(pats, m.semester, path);
    let yv = chars_of(m.year.as_str());
    let year1 = match year_in_path_of(pats, path, current_year) {
        Some(t) => t,
        None => yv,
    };
    let year1 = if year1.len() == 0 {
        i64_text(current_year as i64)
    } else {
        year1
    };
    let ev = chars_of(m.exam_type.as_str());
    let exam1 = if ev.len() == 0 {
        let l = to_lowercase(path_v.as_slice());
        exam_from_path_of(&l)
    } else {
        string_of(ev.as_slice())
    };
    let code = crate::catalog::sanitize_text_of(code1.as_slice());
    let title = header_title_of(title1.as_slice());
    let code_s = string_of(code.as_slice());
    let title_s = string_of(title.as_slice());
    let pv1 = chars_of(prog1.as_str());
    let ev1 = chars_of(exam1.as_str());
    let yv1 = crate::catalog::sanitize_text_of(year1.as_slice());
    m.department = classify_department(code_s.as_str(), title_s.as_str(), m.original_path.as_str());
    m.course_category = classify_course_category(code_s.as_str(), title_s.as_str());
    m.course_level = classify_course_level(code_s.as_str());
    m.program = string_of(crate::catalog::sanitize_text_of(pv1.as_slice()).as_slice());
    m.semester = string_of(crate::catalog::sanitize_text_of(sem1.as_slice()).as_slice());
    m.year = string_of(year_in_range_of(yv1.as_slice(), current_year).as_slice());
    m.exam_type = string_of(crate::catalog::sanitize_text_of(ev1.as_slice()).as_slice());
    m.course_code = code_s;
    m.course_title = title_s;
    assert(m@ =~~= meta_from_path(m0, path@, current_year));
    m
}

/// The metadata of a paper from the text of its first page (`None` when
/// the text could not be extracted) and its path.
pub open spec fn extracted_meta(path: Seq<char>, text: Option<Seq<char>>, current: i32) -> MetaText {
    let m0 = MetaText {
        original_path: path,
        course_code: seq![],
        course_title: seq![],
        department: seq![],
        program: seq![],
        semester: seq![],
        year: seq![],
        exam_type: seq![],
        course_level: seq![],
        course_category: seq![],
        sha256: seq![],
        confidence: "low"@,
    };
    match text {
        None => meta_from_path(m0, path, current),
        Some(t) => {
            let ls = content_lines(t);
            let head = ls.take(if ls.len() > 15 { 15 } else { ls.len() as int });
            let m1 = read_header(m0, head, current + 1);
            meta_from_path(read_code_lines(m1, ls), path, current)
        },
    }
}

/// Extracts the metadata of a paper.
pub fn extract_pdf_metadata(pats: &CatalogPatterns, path: &str, text: Option<&str>, current_year: i32) -> (r: PdfMeta)
    requires
        pats.wf(),
    ensures
        r@ == extracted_meta(path@, match text {
            Some(t) => Some(t@),
            None => None,
        }, current_year),
{
    let m = new_meta(path);
    match text {
        None => meta_from_path_of(pats, m, path, current_year),
        Some(t) => {
            let tv = chars_of(t);
            let ls = content_lines_of(tv.as_slice());
            let m1 = read_header_of(m, &ls, current_year as i64 + 1);
            let m2 = read_code_lines_of(pats, m1, &ls);
            meta_from_path_of(pats, m2, path, current_year)
        },
    }
}


// ---------------------------------------------------------------------------
// The restructured library
// ---------------------------------------------------------------------------

/// The file name a paper gets in the restructured library:
/// `CODE_slug_EXAM_YEAR.pdf`, without the slug when the title gives none or
/// only the code.
pub open spec fn proposed_file_name(m: MetaText) -> Seq<char> {
    let s = slug(m.course_title);
    if s == "unknown"@ || s == lowercase(m.course_code) {
        m.course_code + "_"@ + m.exam_type + "_"@ + m.year + ".pdf"@
    } else {
        m.course_code + "_"@ + s + "_"@ + m.exam_type + "_"@ + m.year + ".pdf"@
    }
}

fn push_str(out: &mut Vec<char>, s: &str)
    ensures
        final(out)@ == old(out)@ + s@,
{
    let v = chars_of(s);
    crate::text::append(out, v.as_slice());
}

pub fn proposed_file_name_of(m: &PdfMeta) -> (r: String)
    ensures
        r@ == proposed_file_name(m@),
{
    let s = slugify(m.course_title.as_str());
    let sv = chars_of(s.as_str());
    let cv = chars_of(m.course_code.as_str());
    let lc = to_lowercase(cv.as_slice());
    let mut out: Vec<char> = Vec::new();
    push_str(&mut out, m.course_code.as_str());
    push_str(&mut out, "_");
    if !(same_text(&sv, "unknown") || same(sv.as_slice(), lc.as_slice())) {
        push_str(&mut out, s.as_str());
        push_str(&mut out, "_");
    }
    push_str(&mut out, m.exam_type.as_str());
    push_str(&mut out, "_");
    push_str(&mut out, m.year.as_str());
    push_str(&mut out, ".pdf");
    string_of(out.as_slice())
}

/// The folders a paper is filed under, then its file name:
/// department, program, category, year, exam type.
pub open spec fn destination_parts(m: MetaText) -> Seq<Seq<char>> {
    seq![m.department, m.program, m.course_category, m.year, m.exam_type, proposed_file_name(m)]
}

pub fn destination_parts_of(m: &PdfMeta) -> (r: Vec<String>)
    ensures
        r@.map_values(|x: String| x@) == destination_parts(m@),
{
    let mut r: Vec<String> = Vec::new();
    r.push(m.department.clone());
    r.push(m.program.clone());
    r.push(m.course_category.clone());
    r.push(m.year.clone());
    r.push(m.exam_type.clone());
    r.push(proposed_file_name_of(m));
    assert(r@.map_values(|x: String| x@) =~= destination_parts(m@));
    r
}

/// The fields of the search index row (`index.tsv`), in column order.
pub open spec fn index_fields(m: MetaText) -> Seq<Seq<char>> {
    seq![
        m.course_code,
        m.course_title,
        m.department,
        m.program,
        m.semester,
        m.year,
        m.exam_type,
        m.course_category,
        m.course_level,
        m.original_path,
    ]
}

/// A line of `index.tsv`: the fields cleaned of tabs and line breaks,
/// joined by tabs.
pub open spec fn tsv_row(m: MetaText) -> Seq<char> {
    join(index_fields(m).map_values(|f: Seq<char>| clean_text(f)), "\t"@)
}

pub fn tsv_row_of(m: &PdfMeta) -> (r: String)
    ensures
        r@ == tsv_row(m@),
{
    let mut fields: Vec<String> = Vec::new();
    fields.push(m.course_code.clone());
    fields.push(m.course_title.clone());
    fields.push(m.department.clone());
    fields.push(m.program.clone());
    fields.push(m.semester.clone());
    fields.push(m.year.clone());
    fields.push(m.exam_type.clone());
    fields.push(m.course_category.clone());
    fields.push(m.course_level.clone());
    fields.push(m.original_path.clone());
    assert(fields@.map_values(|x: String| x@) =~= index_fields(m@));
    let mut cleaned: Vec<Vec<char>> = Vec::new();
    let mut i: usize = 0;
    while i < fields.len()
        invariant
            i <= fields@.len(),
            fields@.map_values(|x: String| x@) == index_fields(m@),
            views(cleaned@) =~= index_fields(m@).take(i as int).map_values(
                |f: Seq<char>| clean_text(f),
            ),
        decreases fields@.len() - i,
    {
        let fv = chars_of(fields[i].as_str());
        let c = crate::catalog::sanitize_text_of(fv.as_slice());
        let ghost before = views(cleaned@);
        assert(index_fields(m@)[i as int] == fields@[i as int]@);
        cleaned.push(c);
        assert(views(cleaned@) =~= before.push(c@));
        i = i + 1;
    }
    assert(index_fields(m@).take(10) =~= index_fields(m@));
    let tab = chars_of("\t");
    let joined = crate::text::join_words(&cleaned, tab.as_slice());
    string_of(joined.as_slice())
}

/// The double quotes of a title turned into single quotes.
pub open spec fn quotes_softened(s: Seq<char>) -> Seq<char> {
    s.map_values(|c: char| if c == '"' { '\'' } else { c })
}

/// A row of `rename_proposal.csv`: every value in double quotes, the title's
/// double quotes softened to single quotes.
pub open spec fn proposal_row(source: Seq<char>, dest: Seq<char>, m: MetaText) -> Seq<char> {
    let vals = seq![
        source,
        dest,
        m.course_code,
        quotes_softened(m.course_title),
        m.department,
        m.program,
        m.semester,
        m.year,
        m.exam_type,
        m.confidence,
    ];
    "\""@ + join(vals, "\",\""@) + "\""@
}

pub fn proposal_row_of(source: &str, dest: &str, m: &PdfMeta) -> (r: String)
    ensures
        r@ == proposal_row(source@, dest@, m@),
{
    let tv = chars_of(m.course_title.as_str());
    let mut soft: Vec<char> = Vec::new();
    let mut i: usize = 0;
    while i < tv.len()
        invariant
            i <= tv@.len(),
            soft@ == quotes_softened(tv@.take(i as int)),
        decreases tv@.len() - i,
    {
        let c = tv[i];
        let d = if c == '"' {
            '\''
        } else {
            c
        };
        soft.push(d);
        assert(quotes_softened(tv@.take(i + 1)) =~= quotes_softened(tv@.take(i as int)).push(d));
        i = i + 1;
    }
    assert(tv@.take(tv@.len() as int) =~= tv@);
    let mut vals: Vec<Vec<char>> = Vec::new();
    vals.push(chars_of(source));
    vals.push(chars_of(dest));
    vals.push(chars_of(m.course_code.as_str()));
    vals.push(soft);
    vals.push(chars_of(m.department.as_str()));
    vals.push(chars_of(m.program.as_str()));
    vals.push(chars_of(m.semester.as_str()));
    vals.push(chars_of(m.year.as_str()));
    vals.push(chars_of(m.exam_type.as_str()));
    vals.push(chars_of(m.confidence.as_str()));
    let sep = chars_of("\",\"");
    let joined = crate::text::join_words(&vals, sep.as_slice());
    let mut out = chars_of("\"");
    crate::text::append(&mut out, joined.as_slice());
    push_str(&mut out, "\"");
    proof {
        assert(views(vals@) =~= seq![
            source@,
            dest@,
            m.course_code@,
            quotes_softened(m.course_title@),
            m.department@,
            m.program@,
            m.semester@,
            m.year@,
            m.exam_type@,
            m.confidence@,
        ]);
    }
    string_of(out.as_slice())
}

} // verus!
