//! Normalisation of the catalogue fields that the search server shows:
//! years, programs, semesters, exam types, course codes and levels.
use vstd::prelude::*;
use crate::clock::get_current_year;
use crate::numbers::{all_digits, i64_text, int_text, parse_i32, parse_i32_of};
use crate::text::{
    byte_len, byte_len_capped, chars_of, contains, contains_in, eq_ascii_ci,
    eq_ignore_ascii_case, is_digit, lowercase, same, starts_with, starts_with_in, string_of,
    to_lowercase, to_uppercase, trim, trim_of, uppercase, lacks, lemma_lacks_pattern,
    lemma_prefix_occurs, lemma_trim_fixed, lemma_trim_twice, ascii_lower,
};
use crate::catalog::{course_level_of, digits_in};

verus! {

/// A `String` holding the characters of `s`.
pub fn owned(s: &str) -> (r: String)
    ensures
        r@ == s@,
{
    String::from_str(s)
}

// ---------------------------------------------------------------------------
// Year
// ---------------------------------------------------------------------------

/// The year shown for a paper whose stored year is `year`, when the clock
/// reads `current`: the stored year when it parses as an `i32` in
/// `1990..=current + 1`, else `current`.
pub open spec fn year_label(year: Seq<char>, current: i32) -> Seq<char> {
    let y = match parse_i32(year) {
        Some(v) => v,
        None => 0,
    };
    if 1990 <= y <= current + 1 {
        int_text(y)
    } else {
        int_text(current as int)
    }
}

/// `sanitize_year` with the current year given.
pub fn sanitize_year_at(year: &str, current: i32) -> (r: String)
    ensures
        r@ == year_label(year@, current),
{
    let ys = chars_of(year);
    let y: i32 = match parse_i32_of(ys.as_slice()) {
        Some(v) => v,
        None => 0,
    };
    let max_year: i64 = current as i64 + 1;
    let t = if 1990 <= y as i64 && y as i64 <= max_year {
        i64_text(y as i64)
    } else {
        i64_text(current as i64)
    };
    string_of(t.as_slice())
}

/// The year shown for a paper, judged against the current year by the clock.
pub fn sanitize_year(year: &str) -> (r: String)
    ensures
        exists|secs: u64| r@ == year_label(year@, crate::clock::year_at(secs)),
{
    let current = get_current_year();
    sanitize_year_at(year, current)
}

// ---------------------------------------------------------------------------
// Program
// ---------------------------------------------------------------------------

/// The degree program shown for a paper, from its stored program, its
/// department and its original path.
pub open spec fn program_label(prog: Seq<char>, dept: Seq<char>, path: Seq<char>) -> Seq<char> {
    let p = trim(prog);
    if eq_ascii_ci(p, "BTech"@) || eq_ascii_ci(p, "B.Tech"@) {
        "B.Tech"@
    } else if eq_ascii_ci(p, "MTech"@) || eq_ascii_ci(p, "M.Tech"@) {
        "M.Tech"@
    } else if p == "General"@ || p == "Sciences"@ || p.len() == 0 {
        if contains(path, "B.Tech"@) || contains(dept, "Engineering"@) || contains(
            dept,
            "Computer"@,
        ) || contains(dept, "Electronics"@) {
            "B.Tech"@
        } else if contains(path, "M.Tech"@) {
            "M.Tech"@
        } else if contains(path, "MCA"@) {
            "MCA"@
        } else if contains(dept, "Humanities"@) || contains(dept, "Media"@) {
            "B.A."@
        } else if contains(dept, "Mathematics"@) || contains(dept, "Physical"@) || contains(
            dept,
            "Chemical"@,
        ) {
            "M.Sc."@
        } else {
            "B.Tech"@
        }
    } else if eq_ascii_ci(p, "Communicaiton"@) || contains(p, "Communication"@) {
        "B.A. Communication"@
    } else if eq_ascii_ci(p, "IntMSc"@) || eq_ascii_ci(p, "Integrated MSc"@) {
        "Integrated M.Sc."@
    } else {
        p
    }
}

proof fn lemma_program_btech(dept: Seq<char>, path: Seq<char>)
    ensures
        program_label("B.Tech"@, dept, path) == "B.Tech"@,
{
    let l = "B.Tech"@;
    reveal_strlit("B.Tech");
    reveal_strlit("BTech");
    reveal_strlit("B.Tech");
    reveal_strlit("MTech");
    reveal_strlit("M.Tech");
    reveal_strlit("General");
    reveal_strlit("Sciences");
    reveal_strlit("Communicaiton");
    reveal_strlit("Communication");
    reveal_strlit("IntMSc");
    reveal_strlit("Integrated MSc");
    lemma_trim_fixed(l);
}

proof fn lemma_program_mtech(dept: Seq<char>, path: Seq<char>)
    ensures
        program_label("M.Tech"@, dept, path) == "M.Tech"@,
{
    let l = "M.Tech"@;
    reveal_strlit("M.Tech");
    reveal_strlit("BTech");
    reveal_strlit("B.Tech");
    reveal_strlit("MTech");
    reveal_strlit("M.Tech");
    reveal_strlit("General");
    reveal_strlit("Sciences");
    reveal_strlit("Communicaiton");
    reveal_strlit("Communication");
    reveal_strlit("IntMSc");
    reveal_strlit("Integrated MSc");
    lemma_trim_fixed(l);
    assert(ascii_lower(l[0]) != ascii_lower("B.Tech"@[0]));
}

proof fn lemma_program_mca(dept: Seq<char>, path: Seq<char>)
    ensures
        program_label("MCA"@, dept, path) == "MCA"@,
{
    let l = "MCA"@;
    reveal_strlit("MCA");
    reveal_strlit("BTech");
    reveal_strlit("B.Tech");
    reveal_strlit("MTech");
    reveal_strlit("M.Tech");
    reveal_strlit("General");
    reveal_strlit("Sciences");
    reveal_strlit("Communicaiton");
    reveal_strlit("Communication");
    reveal_strlit("IntMSc");
    reveal_strlit("Integrated MSc");
    lemma_trim_fixed(l);
}

proof fn lemma_program_ba(dept: Seq<char>, path: Seq<char>)
    ensures
        program_label("B.A."@, dept, path) == "B.A."@,
{
    let l = "B.A."@;
    reveal_strlit("B.A.");
    reveal_strlit("BTech");
    reveal_strlit("B.Tech");
    reveal_strlit("MTech");
    reveal_strlit("M.Tech");
    reveal_strlit("General");
    reveal_strlit("Sciences");
    reveal_strlit("Communicaiton");
    reveal_strlit("Communication");
    reveal_strlit("IntMSc");
    reveal_strlit("Integrated MSc");
    lemma_trim_fixed(l);
}

proof fn lemma_program_msc(dept: Seq<char>, path: Seq<char>)
    ensures
        program_label("M.Sc."@, dept, path) == "M.Sc."@,
{
    let l = "M.Sc."@;
    reveal_strlit("M.Sc.");
    reveal_strlit("BTech");
    reveal_strlit("B.Tech");
    reveal_strlit("MTech");
    reveal_strlit("M.Tech");
    reveal_strlit("General");
    reveal_strlit("Sciences");
    reveal_strlit("Communicaiton");
    reveal_strlit("Communication");
    reveal_strlit("IntMSc");
    reveal_strlit("Integrated MSc");
    lemma_trim_fixed(l);
    assert(ascii_lower(l[0]) != ascii_lower("BTech"@[0]));
    assert(ascii_lower(l[1]) != ascii_lower("MTech"@[1]));
}

proof fn lemma_program_ba_communication(dept: Seq<char>, path: Seq<char>)
    ensures
        program_label("B.A. Communication"@, dept, path) == "B.A. Communication"@,
{
    let l = "B.A. Communication"@;
    reveal_strlit("B.A. Communication");
    reveal_strlit("BTech");
    reveal_strlit("B.Tech");
    reveal_strlit("MTech");
    reveal_strlit("M.Tech");
    reveal_strlit("General");
    reveal_strlit("Sciences");
    reveal_strlit("Communicaiton");
    reveal_strlit("Communication");
    reveal_strlit("IntMSc");
    reveal_strlit("Integrated MSc");
    lemma_trim_fixed(l);
    assert(l.subrange(5, 18) =~= "Communication"@);
    assert(crate::text::occurs_at(l, "Communication"@, 5));
}

proof fn lemma_program_integrated_msc(dept: Seq<char>, path: Seq<char>)
    ensures
        program_label("Integrated M.Sc."@, dept, path) == "Integrated M.Sc."@,
{
    let l = "Integrated M.Sc."@;
    reveal_strlit("Integrated M.Sc.");
    reveal_strlit("BTech");
    reveal_strlit("B.Tech");
    reveal_strlit("MTech");
    reveal_strlit("M.Tech");
    reveal_strlit("General");
    reveal_strlit("Sciences");
    reveal_strlit("Communicaiton");
    reveal_strlit("Communication");
    reveal_strlit("IntMSc");
    reveal_strlit("Integrated MSc");
    lemma_trim_fixed(l);
    reveal_with_fuel(lacks, 20);
    lemma_lacks_pattern(l, "Communication"@);
}

/// Showing a shown program again, with the same department and path,
/// changes nothing.
pub proof fn program_label_is_stable(prog: Seq<char>, dept: Seq<char>, path: Seq<char>)
    ensures
        program_label(program_label(prog, dept, path), dept, path) == program_label(prog, dept, path),
{
    lemma_trim_twice(prog);
    lemma_program_btech(dept, path);
    lemma_program_mtech(dept, path);
    lemma_program_mca(dept, path);
    lemma_program_ba(dept, path);
    lemma_program_msc(dept, path);
    lemma_program_ba_communication(dept, path);
    lemma_program_integrated_msc(dept, path);
}

fn mentions(s: &Vec<char>, pat: &str) -> (b: bool)
    ensures
        b == contains(s@, pat@),
{
    let p = chars_of(pat);
    contains_in(s.as_slice(), p.as_slice())
}

fn is_ci(s: &Vec<char>, lit: &str) -> (b: bool)
    ensures
        b == eq_ascii_ci(s@, lit@),
{
    let p = chars_of(lit);
    eq_ignore_ascii_case(s.as_slice(), p.as_slice())
}

fn is_exactly(s: &Vec<char>, lit: &str) -> (b: bool)
    ensures
        b == (s@ == lit@),
{
    let p = chars_of(lit);
    same(s.as_slice(), p.as_slice())
}

pub fn sanitize_program(prog: &str, dept: &str, orig_path: &str) -> (r: String)
    ensures
        r@ == program_label(prog@, dept@, orig_path@),
{
    let pv = chars_of(prog);
    let p = trim_of(pv.as_slice());
    let d = chars_of(dept);
    let path = chars_of(orig_path);
    if is_ci(&p, "BTech") || is_ci(&p, "B.Tech") {
        owned("B.Tech")
    } else if is_ci(&p, "MTech") || is_ci(&p, "M.Tech") {
        owned("M.Tech")
    } else if is_exactly(&p, "General") || is_exactly(&p, "Sciences") || p.len() == 0 {
        if mentions(&path, "B.Tech") || mentions(&d, "Engineering") || mentions(&d, "Computer") || mentions(
            &d,
            "Electronics",
        ) {
            owned("B.Tech")
        } else if mentions(&path, "M.Tech") {
            owned("M.Tech")
        } else if mentions(&path, "MCA") {
            owned("MCA")
        } else if mentions(&d, "Humanities") || mentions(&d, "Media") {
            owned("B.A.")
        } else if mentions(&d, "Mathematics") || mentions(&d, "Physical") || mentions(&d, "Chemical") {
            owned("M.Sc.")
        } else {
            owned("B.Tech")
        }
    } else if is_ci(&p, "Communicaiton") || mentions(&p, "Communication") {
        owned("B.A. Communication")
    } else if is_ci(&p, "IntMSc") || is_ci(&p, "Integrated MSc") {
        owned("Integrated M.Sc.")
    } else {
        string_of(p.as_slice())
    }
}


// ---------------------------------------------------------------------------
// Semester and exam type
// ---------------------------------------------------------------------------

/// `s.trim_start_matches(pat)` for a non-empty string pattern: every leading
/// copy of `pat` removed.
pub open spec fn strip_prefixes(s: Seq<char>, pat: Seq<char>) -> Seq<char>
    decreases s.len(),
{
    if pat.len() > 0 && starts_with(s, pat) {
        strip_prefixes(s.skip(pat.len() as int), pat)
    } else {
        s
    }
}

pub fn strip_prefixes_of(s: &[char], pat: &[char]) -> (r: Vec<char>)
    ensures
        r@ == strip_prefixes(s@, pat@),
{
    let mut i: usize = 0;
    let _n = s.len();
    assert(s@.skip(0) =~= s@);
    while pat.len() > 0 && crate::text::matches_at(s, pat, i)
        invariant
            i <= s@.len(),
            s@.len() <= usize::MAX,
            strip_prefixes(s@, pat@) == strip_prefixes(s@.skip(i as int), pat@),
        decreases s@.len() - i,
    {
        let ghost t = s@.skip(i as int);
        assert(t.subrange(0, pat@.len() as int) =~= s@.subrange(i as int, i + pat@.len()));
        assert(t.skip(pat@.len() as int) =~= s@.skip(i + pat@.len()));
        i = i + pat.len();
    }
    proof {
        let t = s@.skip(i as int);
        if pat@.len() > 0 && i + pat@.len() <= s@.len() {
            assert(t.subrange(0, pat@.len() as int) =~= s@.subrange(i as int, i + pat@.len()));
        }
    }
    crate::text::subslice(s, i, s.len())
}

/// The semester shown for a paper.
pub open spec fn semester_label(sem: Seq<char>) -> Seq<char> {
    let s = trim(sem);
    if s == "Sem01"@ || s == "1st Semester"@ {
        "Semester I"@
    } else if s == "Sem02"@ || s == "2nd Semester"@ {
        "Semester II"@
    } else if s == "Sem03"@ || s == "3rd Semester"@ {
        "Semester III"@
    } else if s == "Sem04"@ || s == "4th Semester"@ {
        "Semester IV"@
    } else if s == "Sem05"@ || s == "5th Semester"@ {
        "Semester V"@
    } else if s == "Sem06"@ || s == "6th Semester"@ {
        "Semester VI"@
    } else if s == "Sem07"@ || s == "7th Semester"@ {
        "Semester VII"@
    } else if s == "Sem08"@ || s == "8th Semester"@ {
        "Semester VIII"@
    } else if starts_with(s, "Sem"@) {
        "Semester "@ + strip_prefixes(s, "Sem"@)
    } else {
        s
    }
}

pub fn format_semester(sem: &str) -> (r: String)
    ensures
        r@ == semester_label(sem@),
{
    let sv = chars_of(sem);
    let s = trim_of(sv.as_slice());
    if is_exactly(&s, "Sem01") || is_exactly(&s, "1st Semester") {
        owned("Semester I")
    } else if is_exactly(&s, "Sem02") || is_exactly(&s, "2nd Semester") {
        owned("Semester II")
    } else if is_exactly(&s, "Sem03") || is_exactly(&s, "3rd Semester") {
        owned("Semester III")
    } else if is_exactly(&s, "Sem04") || is_exactly(&s, "4th Semester") {
        owned("Semester IV")
    } else if is_exactly(&s, "Sem05") || is_exactly(&s, "5th Semester") {
        owned("Semester V")
    } else if is_exactly(&s, "Sem06") || is_exactly(&s, "6th Semester") {
        owned("Semester VI")
    } else if is_exactly(&s, "Sem07") || is_exactly(&s, "7th Semester") {
        owned("Semester VII")
    } else if is_exactly(&s, "Sem08") || is_exactly(&s, "8th Semester") {
        owned("Semester VIII")
    } else {
        let sem_lit = chars_of("Sem");
        if starts_with_in(s.as_slice(), sem_lit.as_slice()) {
            let rest = strip_prefixes_of(s.as_slice(), sem_lit.as_slice());
            let mut out = chars_of("Semester ");
            crate::text::append(&mut out, rest.as_slice());
            string_of(out.as_slice())
        } else {
            string_of(s.as_slice())
        }
    }
}

/// The exam type shown for a paper; unknown types are kept as given.
pub open spec fn exam_type_label(exam: Seq<char>) -> Seq<char> {
    let e = trim(exam);
    if e == "EndSem"@ {
        "End Sem"@
    } else if e == "MidTerm"@ {
        "Mid Sem"@
    } else if e == "Supply"@ {
        "Supply"@
    } else if e == "First Assessment"@ || e == "Ass1"@ || e == "Ass 1"@ || e == "AssI"@ {
        "CA I"@
    } else if e == "Second Assessment"@ || e == "Ass2"@ || e == "Ass 2"@ || e == "AssII"@ {
        "CA II"@
    } else if e == "Third Assessment"@ || e == "Ass3"@ || e == "Ass 3"@ || e == "AssIII"@ {
        "CA III"@
    } else {
        exam
    }
}

pub fn format_exam_type(exam: &str) -> (r: String)
    ensures
        r@ == exam_type_label(exam@),
{
    let ev = chars_of(exam);
    let e = trim_of(ev.as_slice());
    if is_exactly(&e, "EndSem") {
        owned("End Sem")
    } else if is_exactly(&e, "MidTerm") {
        owned("Mid Sem")
    } else if is_exactly(&e, "Supply") {
        owned("Supply")
    } else if is_exactly(&e, "First Assessment") || is_exactly(&e, "Ass1") || is_exactly(
        &e,
        "Ass 1",
    ) || is_exactly(&e, "AssI") {
        owned("CA I")
    } else if is_exactly(&e, "Second Assessment") || is_exactly(&e, "Ass2") || is_exactly(
        &e,
        "Ass 2",
    ) || is_exactly(&e, "AssII") {
        owned("CA II")
    } else if is_exactly(&e, "Third Assessment") || is_exactly(&e, "Ass3") || is_exactly(
        &e,
        "Ass 3",
    ) || is_exactly(&e, "AssIII") {
        owned("CA III")
    } else {
        owned(exam)
    }
}

// ---------------------------------------------------------------------------
// Course code and level
// ---------------------------------------------------------------------------

/// Whether a stored course code is unusable: it holds a space or a comma,
/// is under three bytes, is all digits, or reads like the start of a sentence.
pub open spec fn code_is_garbage(code: Seq<char>) -> bool {
    let c = trim(code);
    let l = lowercase(c);
    ||| contains(c, " "@)
    ||| contains(c, ","@)
    ||| byte_len(c) < 3
    ||| all_digits(c)
    ||| starts_with(l, "the "@)
    ||| starts_with(l, "with "@)
    ||| starts_with(l, "and "@)
    ||| starts_with(l, "of "@)
    ||| starts_with(l, "in "@)
    ||| starts_with(l, "are "@)
    ||| starts_with(l, "is "@)
}

/// The course code shown for a paper: `AMRITA` for an unusable code, else the
/// trimmed code in upper case.
pub open spec fn code_label(code: Seq<char>) -> Seq<char> {
    if code_is_garbage(code) {
        "AMRITA"@
    } else {
        uppercase(trim(code))
    }
}

fn begins(s: &Vec<char>, lit: &str) -> (b: bool)
    ensures
        b == starts_with(s@, lit@),
{
    let p = chars_of(lit);
    starts_with_in(s.as_slice(), p.as_slice())
}

pub fn all_digits_in(s: &[char]) -> (b: bool)
    ensures
        b == all_digits(s@),
{
    let mut i: usize = 0;
    while i < s.len()
        invariant
            i <= s@.len(),
            forall|j: int| 0 <= j < i ==> crate::text::is_ascii_digit(#[trigger] s@[j]),
        decreases s@.len() - i,
    {
        if !is_digit(s[i]) {
            return false;
        }
        i = i + 1;
    }
    true
}

pub fn sanitize_code(code: &str) -> (r: String)
    ensures
        r@ == code_label(code@),
{
    let cv = chars_of(code);
    let c = trim_of(cv.as_slice());
    let l = to_lowercase(c.as_slice());
    if mentions(&c, " ") || mentions(&c, ",") || byte_len_capped(c.as_slice(), 3) < 3 || all_digits_in(
        c.as_slice(),
    ) || begins(&l, "the ") || begins(&l, "with ") || begins(&l, "and ") || begins(&l, "of ")
        || begins(&l, "in ") || begins(&l, "are ") || begins(&l, "is ") {
        owned("AMRITA")
    } else {
        let u = to_uppercase(c.as_slice());
        string_of(u.as_slice())
    }
}

/// The Roman numeral of semester `n`, for the eight semesters.
pub open spec fn semester_numeral(n: int) -> Seq<char> {
    if n == 1 {
        "I"@
    } else if n == 2 {
        "II"@
    } else if n == 3 {
        "III"@
    } else if n == 4 {
        "IV"@
    } else if n == 5 {
        "V"@
    } else if n == 6 {
        "VI"@
    } else if n == 7 {
        "VII"@
    } else {
        "VIII"@
    }
}

/// The ordinal that names semester `n` (`1st` to `8th`).
pub open spec fn semester_ordinal(n: int) -> Seq<char> {
    if n == 1 {
        "1st"@
    } else if n == 2 {
        "2nd"@
    } else if n == 3 {
        "3rd"@
    } else if n == 4 {
        "4th"@
    } else if n == 5 {
        "5th"@
    } else if n == 6 {
        "6th"@
    } else if n == 7 {
        "7th"@
    } else {
        "8th"@
    }
}

/// The digit of semester `n`.
pub open spec fn semester_digit(n: int) -> char {
    if n == 1 {
        '1'
    } else if n == 2 {
        '2'
    } else if n == 3 {
        '3'
    } else if n == 4 {
        '4'
    } else if n == 5 {
        '5'
    } else if n == 6 {
        '6'
    } else if n == 7 {
        '7'
    } else {
        '8'
    }
}

proof fn lemma_semester_1()
    ensures
        semester_label("Sem01"@) == "Semester I"@,
        semester_label("1st Semester"@) == "Semester I"@,
{
    reveal_strlit("Sem01");
    reveal_strlit("1st Semester");
    reveal_strlit("Semester I");
    lemma_trim_fixed("Sem01"@);
    lemma_trim_fixed("1st Semester"@);
}

proof fn lemma_semester_2()
    ensures
        semester_label("Sem02"@) == "Semester II"@,
        semester_label("2nd Semester"@) == "Semester II"@,
{
    reveal_strlit("Sem01");
    reveal_strlit("1st Semester");
    reveal_strlit("Semester I");
    reveal_strlit("Sem02");
    reveal_strlit("2nd Semester");
    reveal_strlit("Semester II");
    lemma_trim_fixed("Sem02"@);
    lemma_trim_fixed("2nd Semester"@);
}

proof fn lemma_semester_3()
    ensures
        semester_label("Sem03"@) == "Semester III"@,
        semester_label("3rd Semester"@) == "Semester III"@,
{
    reveal_strlit("Sem01");
    reveal_strlit("1st Semester");
    reveal_strlit("Semester I");
    reveal_strlit("Sem02");
    reveal_strlit("2nd Semester");
    reveal_strlit("Semester II");
    reveal_strlit("Sem03");
    reveal_strlit("3rd Semester");
    reveal_strlit("Semester III");
    lemma_trim_fixed("Sem03"@);
    lemma_trim_fixed("3rd Semester"@);
}

proof fn lemma_semester_4()
    ensures
        semester_label("Sem04"@) == "Semester IV"@,
        semester_label("4th Semester"@) == "Semester IV"@,
{
    reveal_strlit("Sem01");
    reveal_strlit("1st Semester");
    reveal_strlit("Semester I");
    reveal_strlit("Sem02");
    reveal_strlit("2nd Semester");
    reveal_strlit("Semester II");
    reveal_strlit("Sem03");
    reveal_strlit("3rd Semester");
    reveal_strlit("Semester III");
    reveal_strlit("Sem04");
    reveal_strlit("4th Semester");
    reveal_strlit("Semester IV");
    lemma_trim_fixed("Sem04"@);
    lemma_trim_fixed("4th Semester"@);
}

proof fn lemma_semester_5()
    ensures
        semester_label("Sem05"@) == "Semester V"@,
        semester_label("5th Semester"@) == "Semester V"@,
{
    reveal_strlit("Sem01");
    reveal_strlit("1st Semester");
    reveal_strlit("Semester I");
    reveal_strlit("Sem02");
    reveal_strlit("2nd Semester");
    reveal_strlit("Semester II");
    reveal_strlit("Sem03");
    reveal_strlit("3rd Semester");
    reveal_strlit("Semester III");
    reveal_strlit("Sem04");
    reveal_strlit("4th Semester");
    reveal_strlit("Semester IV");
    reveal_strlit("Sem05");
    reveal_strlit("5th Semester");
    reveal_strlit("Semester V");
    lemma_trim_fixed("Sem05"@);
    lemma_trim_fixed("5th Semester"@);
}

proof fn lemma_semester_6()
    ensures
        semester_label("Sem06"@) == "Semester VI"@,
        semester_label("6th Semester"@) == "Semester VI"@,
{
    reveal_strlit("Sem01");
    reveal_strlit("1st Semester");
    reveal_strlit("Semester I");
    reveal_strlit("Sem02");
    reveal_strlit("2nd Semester");
    reveal_strlit("Semester II");
    reveal_strlit("Sem03");
    reveal_strlit("3rd Semester");
    reveal_strlit("Semester III");
    reveal_strlit("Sem04");
    reveal_strlit("4th Semester");
    reveal_strlit("Semester IV");
    reveal_strlit("Sem05");
    reveal_strlit("5th Semester");
    reveal_strlit("Semester V");
    reveal_strlit("Sem06");
    reveal_strlit("6th Semester");
    reveal_strlit("Semester VI");
    lemma_trim_fixed("Sem06"@);
    lemma_trim_fixed("6th Semester"@);
}

proof fn lemma_semester_7()
    ensures
        semester_label("Sem07"@) == "Semester VII"@,
        semester_label("7th Semester"@) == "Semester VII"@,
{
    reveal_strlit("Sem01");
    reveal_strlit("1st Semester");
    reveal_strlit("Semester I");
    reveal_strlit("Sem02");
    reveal_strlit("2nd Semester");
    reveal_strlit("Semester II");
    reveal_strlit("Sem03");
    reveal_strlit("3rd Semester");
    reveal_strlit("Semester III");
    reveal_strlit("Sem04");
    reveal_strlit("4th Semester");
    reveal_strlit("Semester IV");
    reveal_strlit("Sem05");
    reveal_strlit("5th Semester");
    reveal_strlit("Semester V");
    reveal_strlit("Sem06");
    reveal_strlit("6th Semester");
    reveal_strlit("Semester VI");
    reveal_strlit("Sem07");
    reveal_strlit("7th Semester");
    reveal_strlit("Semester VII");
    lemma_trim_fixed("Sem07"@);
    lemma_trim_fixed("7th Semester"@);
}

proof fn lemma_semester_8()
    ensures
        semester_label("Sem08"@) == "Semester VIII"@,
        semester_label("8th Semester"@) == "Semester VIII"@,
{
    reveal_strlit("Sem01");
    reveal_strlit("1st Semester");
    reveal_strlit("Semester I");
    reveal_strlit("Sem02");
    reveal_strlit("2nd Semester");
    reveal_strlit("Semester II");
    reveal_strlit("Sem03");
    reveal_strlit("3rd Semester");
    reveal_strlit("Semester III");
    reveal_strlit("Sem04");
    reveal_strlit("4th Semester");
    reveal_strlit("Semester IV");
    reveal_strlit("Sem05");
    reveal_strlit("5th Semester");
    reveal_strlit("Semester V");
    reveal_strlit("Sem06");
    reveal_strlit("6th Semester");
    reveal_strlit("Semester VI");
    reveal_strlit("Sem07");
    reveal_strlit("7th Semester");
    reveal_strlit("Semester VII");
    reveal_strlit("Sem08");
    reveal_strlit("8th Semester");
    reveal_strlit("Semester VIII");
    lemma_trim_fixed("Sem08"@);
    lemma_trim_fixed("8th Semester"@);
}

/// A semester written as a code (`Sem01` to `Sem08`) and the same semester
/// written as an ordinal (`1st Semester` to `8th Semester`) are both shown
/// as `Semester` and the semester's Roman numeral.
pub proof fn semester_codes_and_ordinals_agree(n: int)
    requires
        1 <= n <= 8,
    ensures
        semester_label("Sem0"@.push(semester_digit(n))) == "Semester "@ + semester_numeral(n),
        semester_label(semester_ordinal(n) + " Semester"@) == "Semester "@ + semester_numeral(n),
{
    reveal_strlit("Sem0");
    reveal_strlit(" Semester");
    reveal_strlit("Semester ");
    if n == 1 {
        reveal_strlit("Sem01");
        reveal_strlit("1st");
        reveal_strlit("I");
        reveal_strlit("1st Semester");
        reveal_strlit("Semester I");
        assert("Sem0"@.push('1') =~= "Sem01"@);
        assert("1st"@ + " Semester"@ =~= "1st Semester"@);
        assert("Semester "@ + "I"@ =~= "Semester I"@);
        lemma_semester_1();
    } else if n == 2 {
        reveal_strlit("Sem02");
        reveal_strlit("2nd");
        reveal_strlit("II");
        reveal_strlit("2nd Semester");
        reveal_strlit("Semester II");
        assert("Sem0"@.push('2') =~= "Sem02"@);
        assert("2nd"@ + " Semester"@ =~= "2nd Semester"@);
        assert("Semester "@ + "II"@ =~= "Semester II"@);
        lemma_semester_2();
    } else if n == 3 {
        reveal_strlit("Sem03");
        reveal_strlit("3rd");
        reveal_strlit("III");
        reveal_strlit("3rd Semester");
        reveal_strlit("Semester III");
        assert("Sem0"@.push('3') =~= "Sem03"@);
        assert("3rd"@ + " Semester"@ =~= "3rd Semester"@);
        assert("Semester "@ + "III"@ =~= "Semester III"@);
        lemma_semester_3();
    } else if n == 4 {
        reveal_strlit("Sem04");
        reveal_strlit("4th");
        reveal_strlit("IV");
        reveal_strlit("4th Semester");
        reveal_strlit("Semester IV");
        assert("Sem0"@.push('4') =~= "Sem04"@);
        assert("4th"@ + " Semester"@ =~= "4th Semester"@);
        assert("Semester "@ + "IV"@ =~= "Semester IV"@);
        lemma_semester_4();
    } else if n == 5 {
        reveal_strlit("Sem05");
        reveal_strlit("5th");
        reveal_strlit("V");
        reveal_strlit("5th Semester");
        reveal_strlit("Semester V");
        assert("Sem0"@.push('5') =~= "Sem05"@);
        assert("5th"@ + " Semester"@ =~= "5th Semester"@);
        assert("Semester "@ + "V"@ =~= "Semester V"@);
        lemma_semester_5();
    } else if n == 6 {
        reveal_strlit("Sem06");
        reveal_strlit("6th");
        reveal_strlit("VI");
        reveal_strlit("6th Semester");
        reveal_strlit("Semester VI");
        assert("Sem0"@.push('6') =~= "Sem06"@);
        assert("6th"@ + " Semester"@ =~= "6th Semester"@);
        assert("Semester "@ + "VI"@ =~= "Semester VI"@);
        lemma_semester_6();
    } else if n == 7 {
        reveal_strlit("Sem07");
        reveal_strlit("7th");
        reveal_strlit("VII");
        reveal_strlit("7th Semester");
        reveal_strlit("Semester VII");
        assert("Sem0"@.push('7') =~= "Sem07"@);
        assert("7th"@ + " Semester"@ =~= "7th Semester"@);
        assert("Semester "@ + "VII"@ =~= "Semester VII"@);
        lemma_semester_7();
    } else {
        reveal_strlit("Sem08");
        reveal_strlit("8th");
        reveal_strlit("VIII");
        reveal_strlit("8th Semester");
        reveal_strlit("Semester VIII");
        assert("Sem0"@.push('8') =~= "Sem08"@);
        assert("8th"@ + " Semester"@ =~= "8th Semester"@);
        assert("Semester "@ + "VIII"@ =~= "Semester VIII"@);
        lemma_semester_8();
    }
}

/// The level shown for a paper's stored course level.
pub open spec fn level_label(level: Seq<char>) -> Seq<char> {
    if contains(level, "700"@) || contains(level, "800"@) || contains(level, "PhD"@) {
        "Doctoral & Research"@
    } else if contains(level, "500"@) || contains(level, "600"@) {
        "Postgraduate Core"@
    } else if contains(level, "300"@) || contains(level, "400"@) {
        "Undergraduate Major"@
    } else {
        "Undergraduate Core"@
    }
}

pub fn format_level(level: &str) -> (r: String)
    ensures
        r@ == level_label(level@),
{
    let l = chars_of(level);
    if mentions(&l, "700") || mentions(&l, "800") || mentions(&l, "PhD") {
        owned("Doctoral & Research")
    } else if mentions(&l, "500") || mentions(&l, "600") {
        owned("Postgraduate Core")
    } else if mentions(&l, "300") || mentions(&l, "400") {
        owned("Undergraduate Major")
    } else {
        owned("Undergraduate Core")
    }
}

proof fn lemma_level_doctoral()
    ensures
        level_label("700-800 Level Advanced PhD"@) == "Doctoral & Research"@,
{
    let l = "700-800 Level Advanced PhD"@;
    reveal_strlit("700-800 Level Advanced PhD");
    reveal_strlit("700");
    reveal_strlit("800");
    reveal_strlit("PhD");
    reveal_strlit("500");
    reveal_strlit("600");
    reveal_strlit("300");
    reveal_strlit("400");
    reveal_with_fuel(lacks, 30);
    assert(l.subrange(0, 3) =~= "700"@);
    lemma_prefix_occurs(l, "700"@);
}

proof fn lemma_level_masters()
    ensures
        level_label("500-600 Level Master's"@) == "Postgraduate Core"@,
{
    let l = "500-600 Level Master's"@;
    reveal_strlit("500-600 Level Master's");
    reveal_strlit("700");
    reveal_strlit("800");
    reveal_strlit("PhD");
    reveal_strlit("500");
    reveal_strlit("600");
    reveal_strlit("300");
    reveal_strlit("400");
    reveal_with_fuel(lacks, 30);
    lemma_lacks_pattern(l, "700"@);
    lemma_lacks_pattern(l, "800"@);
    lemma_lacks_pattern(l, "PhD"@);
    assert(l.subrange(0, 3) =~= "500"@);
    lemma_prefix_occurs(l, "500"@);
}

proof fn lemma_level_intermediate()
    ensures
        level_label("300-Level Intermediate"@) == "Undergraduate Major"@,
{
    let l = "300-Level Intermediate"@;
    reveal_strlit("300-Level Intermediate");
    reveal_strlit("700");
    reveal_strlit("800");
    reveal_strlit("PhD");
    reveal_strlit("500");
    reveal_strlit("600");
    reveal_strlit("300");
    reveal_strlit("400");
    reveal_with_fuel(lacks, 30);
    lemma_lacks_pattern(l, "700"@);
    lemma_lacks_pattern(l, "800"@);
    lemma_lacks_pattern(l, "PhD"@);
    lemma_lacks_pattern(l, "500"@);
    lemma_lacks_pattern(l, "600"@);
    assert(l.subrange(0, 3) =~= "300"@);
    lemma_prefix_occurs(l, "300"@);
}

proof fn lemma_level_senior()
    ensures
        level_label("400-Level Senior Electives"@) == "Undergraduate Major"@,
{
    let l = "400-Level Senior Electives"@;
    reveal_strlit("400-Level Senior Electives");
    reveal_strlit("700");
    reveal_strlit("800");
    reveal_strlit("PhD");
    reveal_strlit("500");
    reveal_strlit("600");
    reveal_strlit("300");
    reveal_strlit("400");
    reveal_with_fuel(lacks, 30);
    lemma_lacks_pattern(l, "700"@);
    lemma_lacks_pattern(l, "800"@);
    lemma_lacks_pattern(l, "PhD"@);
    lemma_lacks_pattern(l, "500"@);
    lemma_lacks_pattern(l, "600"@);
    assert(l.subrange(0, 3) =~= "400"@);
    lemma_prefix_occurs(l, "400"@);
}

proof fn lemma_level_introductory()
    ensures
        level_label("100-Level Introductory"@) == "Undergraduate Core"@,
{
    let l = "100-Level Introductory"@;
    reveal_strlit("100-Level Introductory");
    reveal_strlit("700");
    reveal_strlit("800");
    reveal_strlit("PhD");
    reveal_strlit("500");
    reveal_strlit("600");
    reveal_strlit("300");
    reveal_strlit("400");
    reveal_with_fuel(lacks, 30);
    lemma_lacks_pattern(l, "700"@);
    lemma_lacks_pattern(l, "800"@);
    lemma_lacks_pattern(l, "PhD"@);
    lemma_lacks_pattern(l, "500"@);
    lemma_lacks_pattern(l, "600"@);
    lemma_lacks_pattern(l, "300"@);
    lemma_lacks_pattern(l, "400"@);
}

proof fn lemma_level_core()
    ensures
        level_label("200-Level Core"@) == "Undergraduate Core"@,
{
    let l = "200-Level Core"@;
    reveal_strlit("200-Level Core");
    reveal_strlit("700");
    reveal_strlit("800");
    reveal_strlit("PhD");
    reveal_strlit("500");
    reveal_strlit("600");
    reveal_strlit("300");
    reveal_strlit("400");
    reveal_with_fuel(lacks, 30);
    lemma_lacks_pattern(l, "700"@);
    lemma_lacks_pattern(l, "800"@);
    lemma_lacks_pattern(l, "PhD"@);
    lemma_lacks_pattern(l, "500"@);
    lemma_lacks_pattern(l, "600"@);
    lemma_lacks_pattern(l, "300"@);
    lemma_lacks_pattern(l, "400"@);
}

proof fn lemma_level_general()
    ensures
        level_label("General Level"@) == "Undergraduate Core"@,
{
    let l = "General Level"@;
    reveal_strlit("General Level");
    reveal_strlit("700");
    reveal_strlit("800");
    reveal_strlit("PhD");
    reveal_strlit("500");
    reveal_strlit("600");
    reveal_strlit("300");
    reveal_strlit("400");
    reveal_with_fuel(lacks, 30);
    lemma_lacks_pattern(l, "700"@);
    lemma_lacks_pattern(l, "800"@);
    lemma_lacks_pattern(l, "PhD"@);
    lemma_lacks_pattern(l, "500"@);
    lemma_lacks_pattern(l, "600"@);
    lemma_lacks_pattern(l, "300"@);
    lemma_lacks_pattern(l, "400"@);
}

/// The level shown for a course code goes by the code's first digit: `7`
/// or `8` doctoral, `5` or `6` postgraduate, `3` or `4` an undergraduate
/// major, and anything else, or a code with fewer than three digits, the
/// undergraduate core.
pub proof fn level_of_a_course_code(code: Seq<char>)
    ensures
        level_label(course_level_of(code)) == ({
            let d = digits_in(code);
            if d.len() < 3 {
                "Undergraduate Core"@
            } else if d[0] == '7' || d[0] == '8' {
                "Doctoral & Research"@
            } else if d[0] == '5' || d[0] == '6' {
                "Postgraduate Core"@
            } else if d[0] == '3' || d[0] == '4' {
                "Undergraduate Major"@
            } else {
                "Undergraduate Core"@
            }
        }),
{
    lemma_level_doctoral();
    lemma_level_masters();
    lemma_level_intermediate();
    lemma_level_senior();
    lemma_level_introductory();
    lemma_level_core();
    lemma_level_general();
}

proof fn lemma_exam_endsem(a: Seq<char>)
    requires
        trim(a) == "EndSem"@,
    ensures
        exam_type_label(a) == "End Sem"@,
{
    reveal_strlit("EndSem");
    assert("EndSem"@.len() == 6);
}

proof fn lemma_exam_midterm(a: Seq<char>)
    requires
        trim(a) == "MidTerm"@,
    ensures
        exam_type_label(a) == "Mid Sem"@,
{
    reveal_strlit("EndSem");
    reveal_strlit("MidTerm");
    assert("EndSem"@.len() == 6);
    assert("MidTerm"@.len() == 7);
    assert("MidTerm"@ != "EndSem"@);
}

proof fn lemma_exam_supply(a: Seq<char>)
    requires
        trim(a) == "Supply"@,
    ensures
        exam_type_label(a) == "Supply"@,
{
    reveal_strlit("EndSem");
    reveal_strlit("MidTerm");
    reveal_strlit("Supply");
    assert("EndSem"@.len() == 6);
    assert("MidTerm"@.len() == 7);
    assert("Supply"@.len() == 6);
    assert("Supply"@[0] == 'S');
    assert("EndSem"@[0] == 'E');
    assert("Supply"@ != "EndSem"@);
    assert("Supply"@ != "MidTerm"@);
}

proof fn lemma_exam_first_assessment(a: Seq<char>)
    requires
        trim(a) == "First Assessment"@,
    ensures
        exam_type_label(a) == "CA I"@,
{
    reveal_strlit("EndSem");
    reveal_strlit("MidTerm");
    reveal_strlit("Supply");
    reveal_strlit("First Assessment");
    assert("EndSem"@.len() == 6);
    assert("MidTerm"@.len() == 7);
    assert("Supply"@.len() == 6);
    assert("First Assessment"@.len() == 16);
    assert("First Assessment"@ != "EndSem"@);
    assert("First Assessment"@ != "MidTerm"@);
    assert("First Assessment"@ != "Supply"@);
}

proof fn lemma_exam_ass1(a: Seq<char>)
    requires
        trim(a) == "Ass1"@,
    ensures
        exam_type_label(a) == "CA I"@,
{
    reveal_strlit("EndSem");
    reveal_strlit("MidTerm");
    reveal_strlit("Supply");
    reveal_strlit("First Assessment");
    reveal_strlit("Ass1");
    assert("EndSem"@.len() == 6);
    assert("MidTerm"@.len() == 7);
    assert("Supply"@.len() == 6);
    assert("First Assessment"@.len() == 16);
    assert("Ass1"@.len() == 4);
    assert("Ass1"@ != "EndSem"@);
    assert("Ass1"@ != "MidTerm"@);
    assert("Ass1"@ != "Supply"@);
    assert("Ass1"@ != "First Assessment"@);
}

proof fn lemma_exam_ass_1(a: Seq<char>)
    requires
        trim(a) == "Ass 1"@,
    ensures
        exam_type_label(a) == "CA I"@,
{
    reveal_strlit("EndSem");
    reveal_strlit("MidTerm");
    reveal_strlit("Supply");
    reveal_strlit("First Assessment");
    reveal_strlit("Ass1");
    reveal_strlit("Ass 1");
    assert("EndSem"@.len() == 6);
    assert("MidTerm"@.len() == 7);
    assert("Supply"@.len() == 6);
    assert("First Assessment"@.len() == 16);
    assert("Ass1"@.len() == 4);
    assert("Ass 1"@.len() == 5);
    assert("Ass 1"@ != "EndSem"@);
    assert("Ass 1"@ != "MidTerm"@);
    assert("Ass 1"@ != "Supply"@);
    assert("Ass 1"@ != "First Assessment"@);
    assert("Ass 1"@ != "Ass1"@);
}

proof fn lemma_exam_assi(a: Seq<char>)
    requires
        trim(a) == "AssI"@,
    ensures
        exam_type_label(a) == "CA I"@,
{
    reveal_strlit("EndSem");
    reveal_strlit("MidTerm");
    reveal_strlit("Supply");
    reveal_strlit("First Assessment");
    reveal_strlit("Ass1");
    reveal_strlit("Ass 1");
    reveal_strlit("AssI");
    assert("EndSem"@.len() == 6);
    assert("MidTerm"@.len() == 7);
    assert("Supply"@.len() == 6);
    assert("First Assessment"@.len() == 16);
    assert("Ass1"@.len() == 4);
    assert("Ass 1"@.len() == 5);
    assert("AssI"@.len() == 4);
    assert("AssI"@ != "EndSem"@);
    assert("AssI"@ != "MidTerm"@);
    assert("AssI"@ != "Supply"@);
    assert("AssI"@ != "First Assessment"@);
    assert("AssI"@[3] == 'I');
    assert("Ass1"@[3] == '1');
    assert("AssI"@ != "Ass1"@);
    assert("AssI"@ != "Ass 1"@);
}

proof fn lemma_exam_second_assessment(a: Seq<char>)
    requires
        trim(a) == "Second Assessment"@,
    ensures
        exam_type_label(a) == "CA II"@,
{
    reveal_strlit("EndSem");
    reveal_strlit("MidTerm");
    reveal_strlit("Supply");
    reveal_strlit("First Assessment");
    reveal_strlit("Ass1");
    reveal_strlit("Ass 1");
    reveal_strlit("AssI");
    reveal_strlit("Second Assessment");
    assert("EndSem"@.len() == 6);
    assert("MidTerm"@.len() == 7);
    assert("Supply"@.len() == 6);
    assert("First Assessment"@.len() == 16);
    assert("Ass1"@.len() == 4);
    assert("Ass 1"@.len() == 5);
    assert("AssI"@.len() == 4);
    assert("Second Assessment"@.len() == 17);
    assert("Second Assessment"@ != "EndSem"@);
    assert("Second Assessment"@ != "MidTerm"@);
    assert("Second Assessment"@ != "Supply"@);
    assert("Second Assessment"@ != "First Assessment"@);
    assert("Second Assessment"@ != "Ass1"@);
    assert("Second Assessment"@ != "Ass 1"@);
    assert("Second Assessment"@ != "AssI"@);
}

proof fn lemma_exam_ass2(a: Seq<char>)
    requires
        trim(a) == "Ass2"@,
    ensures
        exam_type_label(a) == "CA II"@,
{
    reveal_strlit("EndSem");
    reveal_strlit("MidTerm");
    reveal_strlit("Supply");
    reveal_strlit("First Assessment");
    reveal_strlit("Ass1");
    reveal_strlit("Ass 1");
    reveal_strlit("AssI");
    reveal_strlit("Second Assessment");
    reveal_strlit("Ass2");
    assert("EndSem"@.len() == 6);
    assert("MidTerm"@.len() == 7);
    assert("Supply"@.len() == 6);
    assert("First Assessment"@.len() == 16);
    assert("Ass1"@.len() == 4);
    assert("Ass 1"@.len() == 5);
    assert("AssI"@.len() == 4);
    assert("Second Assessment"@.len() == 17);
    assert("Ass2"@.len() == 4);
    assert("Ass2"@ != "EndSem"@);
    assert("Ass2"@ != "MidTerm"@);
    assert("Ass2"@ != "Supply"@);
    assert("Ass2"@ != "First Assessment"@);
    assert("Ass2"@[3] == '2');
    assert("Ass1"@[3] == '1');
    assert("Ass2"@ != "Ass1"@);
    assert("Ass2"@ != "Ass 1"@);
    assert("Ass2"@[3] == '2');
    assert("AssI"@[3] == 'I');
    assert("Ass2"@ != "AssI"@);
    assert("Ass2"@ != "Second Assessment"@);
}

proof fn lemma_exam_ass_2(a: Seq<char>)
    requires
        trim(a) == "Ass 2"@,
    ensures
        exam_type_label(a) == "CA II"@,
{
    reveal_strlit("EndSem");
    reveal_strlit("MidTerm");
    reveal_strlit("Supply");
    reveal_strlit("First Assessment");
    reveal_strlit("Ass1");
    reveal_strlit("Ass 1");
    reveal_strlit("AssI");
    reveal_strlit("Second Assessment");
    reveal_strlit("Ass2");
    reveal_strlit("Ass 2");
    assert("EndSem"@.len() == 6);
    assert("MidTerm"@.len() == 7);
    assert("Supply"@.len() == 6);
    assert("First Assessment"@.len() == 16);
    assert("Ass1"@.len() == 4);
    assert("Ass 1"@.len() == 5);
    assert("AssI"@.len() == 4);
    assert("Second Assessment"@.len() == 17);
    assert("Ass2"@.len() == 4);
    assert("Ass 2"@.len() == 5);
    assert("Ass 2"@ != "EndSem"@);
    assert("Ass 2"@ != "MidTerm"@);
    assert("Ass 2"@ != "Supply"@);
    assert("Ass 2"@ != "First Assessment"@);
    assert("Ass 2"@ != "Ass1"@);
    assert("Ass 2"@[4] == '2');
    assert("Ass 1"@[4] == '1');
    assert("Ass 2"@ != "Ass 1"@);
    assert("Ass 2"@ != "AssI"@);
    assert("Ass 2"@ != "Second Assessment"@);
    assert("Ass 2"@ != "Ass2"@);
}

proof fn lemma_exam_assii(a: Seq<char>)
    requires
        trim(a) == "AssII"@,
    ensures
        exam_type_label(a) == "CA II"@,
{
    reveal_strlit("EndSem");
    reveal_strlit("MidTerm");
    reveal_strlit("Supply");
    reveal_strlit("First Assessment");
    reveal_strlit("Ass1");
    reveal_strlit("Ass 1");
    reveal_strlit("AssI");
    reveal_strlit("Second Assessment");
    reveal_strlit("Ass2");
    reveal_strlit("Ass 2");
    reveal_strlit("AssII");
    assert("EndSem"@.len() == 6);
    assert("MidTerm"@.len() == 7);
    assert("Supply"@.len() == 6);
    assert("First Assessment"@.len() == 16);
    assert("Ass1"@.len() == 4);
    assert("Ass 1"@.len() == 5);
    assert("AssI"@.len() == 4);
    assert("Second Assessment"@.len() == 17);
    assert("Ass2"@.len() == 4);
    assert("Ass 2"@.len() == 5);
    assert("AssII"@.len() == 5);
    assert("AssII"@ != "EndSem"@);
    assert("AssII"@ != "MidTerm"@);
    assert("AssII"@ != "Supply"@);
    assert("AssII"@ != "First Assessment"@);
    assert("AssII"@ != "Ass1"@);
    assert("AssII"@[3] == 'I');
    assert("Ass 1"@[3] == ' ');
    assert("AssII"@ != "Ass 1"@);
    assert("AssII"@ != "AssI"@);
    assert("AssII"@ != "Second Assessment"@);
    assert("AssII"@ != "Ass2"@);
    assert("AssII"@[3] == 'I');
    assert("Ass 2"@[3] == ' ');
    assert("AssII"@ != "Ass 2"@);
}

proof fn lemma_exam_third_assessment(a: Seq<char>)
    requires
        trim(a) == "Third Assessment"@,
    ensures
        exam_type_label(a) == "CA III"@,
{
    reveal_strlit("EndSem");
    reveal_strlit("MidTerm");
    reveal_strlit("Supply");
    reveal_strlit("First Assessment");
    reveal_strlit("Ass1");
    reveal_strlit("Ass 1");
    reveal_strlit("AssI");
    reveal_strlit("Second Assessment");
    reveal_strlit("Ass2");
    reveal_strlit("Ass 2");
    reveal_strlit("AssII");
    reveal_strlit("Third Assessment");
    assert("EndSem"@.len() == 6);
    assert("MidTerm"@.len() == 7);
    assert("Supply"@.len() == 6);
    assert("First Assessment"@.len() == 16);
    assert("Ass1"@.len() == 4);
    assert("Ass 1"@.len() == 5);
    assert("AssI"@.len() == 4);
    assert("Second Assessment"@.len() == 17);
    assert("Ass2"@.len() == 4);
    assert("Ass 2"@.len() == 5);
    assert("AssII"@.len() == 5);
    assert("Third Assessment"@.len() == 16);
    assert("Third Assessment"@ != "EndSem"@);
    assert("Third Assessment"@ != "MidTerm"@);
    assert("Third Assessment"@ != "Supply"@);
    assert("Third Assessment"@[0] == 'T');
    assert("First Assessment"@[0] == 'F');
    assert("Third Assessment"@ != "First Assessment"@);
    assert("Third Assessment"@ != "Ass1"@);
    assert("Third Assessment"@ != "Ass 1"@);
    assert("Third Assessment"@ != "AssI"@);
    assert("Third Assessment"@ != "Second Assessment"@);
    assert("Third Assessment"@ != "Ass2"@);
    assert("Third Assessment"@ != "Ass 2"@);
    assert("Third Assessment"@ != "AssII"@);
}

proof fn lemma_exam_ass3(a: Seq<char>)
    requires
        trim(a) == "Ass3"@,
    ensures
        exam_type_label(a) == "CA III"@,
{
    reveal_strlit("EndSem");
    reveal_strlit("MidTerm");
    reveal_strlit("Supply");
    reveal_strlit("First Assessment");
    reveal_strlit("Ass1");
    reveal_strlit("Ass 1");
    reveal_strlit("AssI");
    reveal_strlit("Second Assessment");
    reveal_strlit("Ass2");
    reveal_strlit("Ass 2");
    reveal_strlit("AssII");
    reveal_strlit("Third Assessment");
    reveal_strlit("Ass3");
    assert("EndSem"@.len() == 6);
    assert("MidTerm"@.len() == 7);
    assert("Supply"@.len() == 6);
    assert("First Assessment"@.len() == 16);
    assert("Ass1"@.len() == 4);
    assert("Ass 1"@.len() == 5);
    assert("AssI"@.len() == 4);
    assert("Second Assessment"@.len() == 17);
    assert("Ass2"@.len() == 4);
    assert("Ass 2"@.len() == 5);
    assert("AssII"@.len() == 5);
    assert("Third Assessment"@.len() == 16);
    assert("Ass3"@.len() == 4);
    assert("Ass3"@ != "EndSem"@);
    assert("Ass3"@ != "MidTerm"@);
    assert("Ass3"@ != "Supply"@);
    assert("Ass3"@ != "First Assessment"@);
    assert("Ass3"@[3] == '3');
    assert("Ass1"@[3] == '1');
    assert("Ass3"@ != "Ass1"@);
    assert("Ass3"@ != "Ass 1"@);
    assert("Ass3"@[3] == '3');
    assert("AssI"@[3] == 'I');
    assert("Ass3"@ != "AssI"@);
    assert("Ass3"@ != "Second Assessment"@);
    assert("Ass3"@[3] == '3');
    assert("Ass2"@[3] == '2');
    assert("Ass3"@ != "Ass2"@);
    assert("Ass3"@ != "Ass 2"@);
    assert("Ass3"@ != "AssII"@);
    assert("Ass3"@ != "Third Assessment"@);
}

proof fn lemma_exam_ass_3(a: Seq<char>)
    requires
        trim(a) == "Ass 3"@,
    ensures
        exam_type_label(a) == "CA III"@,
{
    reveal_strlit("EndSem");
    reveal_strlit("MidTerm");
    reveal_strlit("Supply");
    reveal_strlit("First Assessment");
    reveal_strlit("Ass1");
    reveal_strlit("Ass 1");
    reveal_strlit("AssI");
    reveal_strlit("Second Assessment");
    reveal_strlit("Ass2");
    reveal_strlit("Ass 2");
    reveal_strlit("AssII");
    reveal_strlit("Third Assessment");
    reveal_strlit("Ass3");
    reveal_strlit("Ass 3");
    assert("EndSem"@.len() == 6);
    assert("MidTerm"@.len() == 7);
    assert("Supply"@.len() == 6);
    assert("First Assessment"@.len() == 16);
    assert("Ass1"@.len() == 4);
    assert("Ass 1"@.len() == 5);
    assert("AssI"@.len() == 4);
    assert("Second Assessment"@.len() == 17);
    assert("Ass2"@.len() == 4);
    assert("Ass 2"@.len() == 5);
    assert("AssII"@.len() == 5);
    assert("Third Assessment"@.len() == 16);
    assert("Ass3"@.len() == 4);
    assert("Ass 3"@.len() == 5);
    assert("Ass 3"@ != "EndSem"@);
    assert("Ass 3"@ != "MidTerm"@);
    assert("Ass 3"@ != "Supply"@);
    assert("Ass 3"@ != "First Assessment"@);
    assert("Ass 3"@ != "Ass1"@);
    assert("Ass 3"@[4] == '3');
    assert("Ass 1"@[4] == '1');
    assert("Ass 3"@ != "Ass 1"@);
    assert("Ass 3"@ != "AssI"@);
    assert("Ass 3"@ != "Second Assessment"@);
    assert("Ass 3"@ != "Ass2"@);
    assert("Ass 3"@[4] == '3');
    assert("Ass 2"@[4] == '2');
    assert("Ass 3"@ != "Ass 2"@);
    assert("Ass 3"@[3] == ' ');
    assert("AssII"@[3] == 'I');
    assert("Ass 3"@ != "AssII"@);
    assert("Ass 3"@ != "Third Assessment"@);
    assert("Ass 3"@ != "Ass3"@);
}

proof fn lemma_exam_assiii(a: Seq<char>)
    requires
        trim(a) == "AssIII"@,
    ensures
        exam_type_label(a) == "CA III"@,
{
    reveal_strlit("EndSem");
    reveal_strlit("MidTerm");
    reveal_strlit("Supply");
    reveal_strlit("First Assessment");
    reveal_strlit("Ass1");
    reveal_strlit("Ass 1");
    reveal_strlit("AssI");
    reveal_strlit("Second Assessment");
    reveal_strlit("Ass2");
    reveal_strlit("Ass 2");
    reveal_strlit("AssII");
    reveal_strlit("Third Assessment");
    reveal_strlit("Ass3");
    reveal_strlit("Ass 3");
    reveal_strlit("AssIII");
    assert("EndSem"@.len() == 6);
    assert("MidTerm"@.len() == 7);
    assert("Supply"@.len() == 6);
    assert("First Assessment"@.len() == 16);
    assert("Ass1"@.len() == 4);
    assert("Ass 1"@.len() == 5);
    assert("AssI"@.len() == 4);
    assert("Second Assessment"@.len() == 17);
    assert("Ass2"@.len() == 4);
    assert("Ass 2"@.len() == 5);
    assert("AssII"@.len() == 5);
    assert("Third Assessment"@.len() == 16);
    assert("Ass3"@.len() == 4);
    assert("Ass 3"@.len() == 5);
    assert("AssIII"@.len() == 6);
    assert("AssIII"@[0] == 'A');
    assert("EndSem"@[0] == 'E');
    assert("AssIII"@ != "EndSem"@);
    assert("AssIII"@ != "MidTerm"@);
    assert("AssIII"@[0] == 'A');
    assert("Supply"@[0] == 'S');
    assert("AssIII"@ != "Supply"@);
    assert("AssIII"@ != "First Assessment"@);
    assert("AssIII"@ != "Ass1"@);
    assert("AssIII"@ != "Ass 1"@);
    assert("AssIII"@ != "AssI"@);
    assert("AssIII"@ != "Second Assessment"@);
    assert("AssIII"@ != "Ass2"@);
    assert("AssIII"@ != "Ass 2"@);
    assert("AssIII"@ != "AssII"@);
    assert("AssIII"@ != "Third Assessment"@);
    assert("AssIII"@ != "Ass3"@);
    assert("AssIII"@ != "Ass 3"@);
}

/// The spellings of the first continuous assessment.
pub open spec fn first_assessment(e: Seq<char>) -> bool {
    e == "First Assessment"@ || e == "Ass1"@ || e == "Ass 1"@ || e == "AssI"@
}

/// The spellings of the second continuous assessment.
pub open spec fn second_assessment(e: Seq<char>) -> bool {
    e == "Second Assessment"@ || e == "Ass2"@ || e == "Ass 2"@ || e == "AssII"@
}

/// The spellings of the third continuous assessment.
pub open spec fn third_assessment(e: Seq<char>) -> bool {
    e == "Third Assessment"@ || e == "Ass3"@ || e == "Ass 3"@ || e == "AssIII"@
}

/// Each continuous assessment, however it is spelled and whatever space
/// surrounds it, is shown under its own label: the first as `CA I`, the
/// second as `CA II`, the third as `CA III`; so papers of two different
/// assessments never share a label.
pub proof fn assessments_keep_their_number(a: Seq<char>, b: Seq<char>)
    ensures
        first_assessment(trim(a)) ==> exam_type_label(a) == "CA I"@,
        second_assessment(trim(a)) ==> exam_type_label(a) == "CA II"@,
        third_assessment(trim(a)) ==> exam_type_label(a) == "CA III"@,
        first_assessment(trim(a)) && second_assessment(trim(b)) ==> exam_type_label(a)
            != exam_type_label(b),
        first_assessment(trim(a)) && third_assessment(trim(b)) ==> exam_type_label(a)
            != exam_type_label(b),
        second_assessment(trim(a)) && third_assessment(trim(b)) ==> exam_type_label(a)
            != exam_type_label(b),
{
    if trim(a) == "First Assessment"@ {
        lemma_exam_first_assessment(a);
    }
    if trim(a) == "Ass1"@ {
        lemma_exam_ass1(a);
    }
    if trim(a) == "Ass 1"@ {
        lemma_exam_ass_1(a);
    }
    if trim(a) == "AssI"@ {
        lemma_exam_assi(a);
    }
    if trim(a) == "Second Assessment"@ {
        lemma_exam_second_assessment(a);
    }
    if trim(a) == "Ass2"@ {
        lemma_exam_ass2(a);
    }
    if trim(a) == "Ass 2"@ {
        lemma_exam_ass_2(a);
    }
    if trim(a) == "AssII"@ {
        lemma_exam_assii(a);
    }
    if trim(a) == "Third Assessment"@ {
        lemma_exam_third_assessment(a);
    }
    if trim(a) == "Ass3"@ {
        lemma_exam_ass3(a);
    }
    if trim(a) == "Ass 3"@ {
        lemma_exam_ass_3(a);
    }
    if trim(a) == "AssIII"@ {
        lemma_exam_assiii(a);
    }
    if trim(b) == "First Assessment"@ {
        lemma_exam_first_assessment(b);
    }
    if trim(b) == "Ass1"@ {
        lemma_exam_ass1(b);
    }
    if trim(b) == "Ass 1"@ {
        lemma_exam_ass_1(b);
    }
    if trim(b) == "AssI"@ {
        lemma_exam_assi(b);
    }
    if trim(b) == "Second Assessment"@ {
        lemma_exam_second_assessment(b);
    }
    if trim(b) == "Ass2"@ {
        lemma_exam_ass2(b);
    }
    if trim(b) == "Ass 2"@ {
        lemma_exam_ass_2(b);
    }
    if trim(b) == "AssII"@ {
        lemma_exam_assii(b);
    }
    if trim(b) == "Third Assessment"@ {
        lemma_exam_third_assessment(b);
    }
    if trim(b) == "Ass3"@ {
        lemma_exam_ass3(b);
    }
    if trim(b) == "Ass 3"@ {
        lemma_exam_ass_3(b);
    }
    if trim(b) == "AssIII"@ {
        lemma_exam_assiii(b);
    }
    reveal_strlit("CA I");
    reveal_strlit("CA II");
    reveal_strlit("CA III");
    assert("CA I"@.len() == 4);
    assert("CA II"@.len() == 5);
    assert("CA III"@.len() == 6);
}

/// The end-semester, mid-term and supplementary exams are shown as `End Sem`,
/// `Mid Sem` and `Supply`; any other exam type is shown as it was stored.
pub proof fn other_exam_types(a: Seq<char>)
    ensures
        trim(a) == "EndSem"@ ==> exam_type_label(a) == "End Sem"@,
        trim(a) == "MidTerm"@ ==> exam_type_label(a) == "Mid Sem"@,
        trim(a) == "Supply"@ ==> exam_type_label(a) == "Supply"@,
        !first_assessment(trim(a)) && !second_assessment(trim(a)) && !third_assessment(trim(a))
            && trim(a) != "EndSem"@ && trim(a) != "MidTerm"@ && trim(a) != "Supply"@
            ==> exam_type_label(a) == a,
{
    if trim(a) == "EndSem"@ {
        lemma_exam_endsem(a);
    }
    if trim(a) == "MidTerm"@ {
        lemma_exam_midterm(a);
    }
    if trim(a) == "Supply"@ {
        lemma_exam_supply(a);
    }
}

} // verus!
