//! What the search server makes of database rows: paper records, search
//! suggestions, facet counts and the relative path of a stored file.
use vstd::prelude::*;
use crate::display::{
    code_label, exam_type_label, format_exam_type, format_level, format_semester, level_label,
    owned, program_label, sanitize_program, sanitize_year_at, semester_label, year_label,
};
use crate::text::{
    append, chars_of, find, find_in, same, strip_start, strip_start_of, string_of, subslice, trim,
    trim_of, CharClass,
};
use crate::title::{clean_title, title_label, TitlePatterns};

verus! {

// ---------------------------------------------------------------------------
// Relative paths
// ---------------------------------------------------------------------------

/// `Path::strip_prefix(base)` of `path`, as text: the path relative to `base`
/// when `base` is a prefix of it (compared component by component).
pub uninterp spec fn path_without_prefix(path: Seq<char>, base: Seq<char>) -> Option<Seq<char>>;

/// Calls `Path::strip_prefix`; the result is named `path_without_prefix`.
#[verifier::external_body]
pub(crate) fn strip_path_prefix(path: &str, base: &str) -> (r: Option<String>)
    ensures
        r matches Some(s) ==> path_without_prefix(path@, base@) == Some(s@),
        r is None ==> path_without_prefix(path@, base@) is None,
{
    std::path::Path::new(path).strip_prefix(base).ok().map(|p| p.to_string_lossy().to_string())
}

/// Where a stored file lies relative to the archive: below the raw or the
/// indexed root, else from the `Examination Papers/` folder on, else the
/// stored path without leading slashes.
pub open spec fn relative_path(orig: Seq<char>, raw_root: Seq<char>, indexed_root: Seq<char>) -> Seq<
    char,
> {
    match path_without_prefix(orig, raw_root) {
        Some(s) => s,
        None => match path_without_prefix(orig, indexed_root) {
            Some(s) => s,
            None => match find(orig, "Examination  Papers/"@) {
                Some(p) => orig.skip(p),
                None => match find(orig, "Examination Papers/"@) {
                    Some(p) => orig.skip(p),
                    None => strip_start(orig, CharClass::Exactly('/')),
                },
            },
        },
    }
}

pub fn relative_path_of(orig_path: &str, raw_root: &str, indexed_root: &str) -> (r: String)
    ensures
        r@ == relative_path(orig_path@, raw_root@, indexed_root@),
{
    if let Some(s) = strip_path_prefix(orig_path, raw_root) {
        return s;
    }
    if let Some(s) = strip_path_prefix(orig_path, indexed_root) {
        return s;
    }
    let o = chars_of(orig_path);
    let double = chars_of("Examination  Papers/");
    if let Some(p) = find_in(o.as_slice(), double.as_slice()) {
        proof {
            crate::text::lemma_find(o@, double@);
        }
        let tail = subslice(o.as_slice(), p, o.len());
        assert(tail@ =~= o@.skip(p as int));
        return string_of(tail.as_slice());
    }
    let single = chars_of("Examination Papers/");
    if let Some(p) = find_in(o.as_slice(), single.as_slice()) {
        proof {
            crate::text::lemma_find(o@, single@);
        }
        let tail = subslice(o.as_slice(), p, o.len());
        assert(tail@ =~= o@.skip(p as int));
        return string_of(tail.as_slice());
    }
    let t = strip_start_of(o.as_slice(), CharClass::Exactly('/'));
    string_of(t.as_slice())
}

// ---------------------------------------------------------------------------
// Paper records
// ---------------------------------------------------------------------------

/// A row of the `papers` table as the search query selects it.
pub struct PaperRow {
    pub id: i64,
    pub course_code: String,
    pub course_title: String,
    pub department: String,
    pub program: String,
    pub semester: String,
    pub year: String,
    pub exam_type: String,
    pub course_category: String,
    pub course_level: String,
    pub original_path: String,
}

/// A paper as the search API shows it.
pub struct PaperRecord {
    pub id: i64,
    pub course_code: String,
    pub course_title: String,
    pub department: String,
    pub program: String,
    pub semester: String,
    pub year: String,
    pub exam_type: String,
    pub course_category: String,
    pub course_level: String,
    pub relative_path: String,
}

/// The record shown for a row when the clock reads `current_year`.
pub open spec fn record_matches(
    rec: PaperRecord,
    row: PaperRow,
    raw_root: Seq<char>,
    indexed_root: Seq<char>,
    current_year: i32,
) -> bool {
    &&& rec.id == row.id
    &&& rec.course_code@ == (if row.course_code@.len() == 0 {
        "AMRITA"@
    } else {
        row.course_code@
    })
    &&& rec.course_title@ == title_label(row.course_title@, row.course_code@)
    &&& rec.department@ == row.department@
    &&& rec.program@ == program_label(row.program@, row.department@, row.original_path@)
    &&& rec.semester@ == semester_label(row.semester@)
    &&& rec.year@ == year_label(row.year@, current_year)
    &&& rec.exam_type@ == exam_type_label(row.exam_type@)
    &&& rec.course_category@ == row.course_category@
    &&& rec.course_level@ == level_label(row.course_level@)
    &&& rec.relative_path@ == relative_path(row.original_path@, raw_root, indexed_root)
}

/// Builds the record shown for a row.
pub fn paper_record(
    pats: &TitlePatterns,
    row: PaperRow,
    raw_root: &str,
    indexed_root: &str,
    current_year: i32,
) -> (rec: PaperRecord)
    requires
        pats.wf(),
    ensures
        record_matches(rec, row, raw_root@, indexed_root@, current_year),
{
    let code_chars = chars_of(row.course_code.as_str());
    let course_code = if code_chars.len() == 0 {
        owned("AMRITA")
    } else {
        row.course_code.clone()
    };
    let rel = relative_path_of(row.original_path.as_str(), raw_root, indexed_root);
    PaperRecord {
        id: row.id,
        course_code,
        course_title: clean_title(pats, row.course_title.as_str(), row.course_code.as_str()),
        department: row.department.clone(),
        program: sanitize_program(
            row.program.as_str(),
            row.department.as_str(),
            row.original_path.as_str(),
        ),
        semester: format_semester(row.semester.as_str()),
        year: sanitize_year_at(row.year.as_str(), current_year),
        exam_type: format_exam_type(row.exam_type.as_str()),
        course_category: row.course_category.clone(),
        course_level: format_level(row.course_level.as_str()),
        relative_path: rel,
    }
}


// ---------------------------------------------------------------------------
// Suggestions
// ---------------------------------------------------------------------------

/// A search-as-you-type suggestion.
pub struct SuggestRecord {
    pub course_code: String,
    pub course_title: String,
    pub department: String,
    pub program: String,
}

/// The most suggestions one answer holds.
pub const MAX_SUGGESTIONS: usize = 8;

/// The `LIKE` pattern for a suggestion query: the trimmed query followed by
/// `%`; none for a missing or blank query.
pub open spec fn suggest_pattern(q: Option<String>) -> Option<Seq<char>> {
    match q {
        Some(v) => if trim(v@).len() > 0 {
            Some(trim(v@) + "%"@)
        } else {
            None
        },
        None => None,
    }
}

pub fn suggest_pattern_of(q: &Option<String>) -> (r: Option<String>)
    ensures
        r matches Some(s) ==> suggest_pattern(*q) == Some(s@),
        r is None ==> suggest_pattern(*q) is None,
{
    match q {
        Some(v) => {
            let c = chars_of(v.as_str());
            let mut t = trim_of(c.as_slice());
            if t.len() == 0 {
                return None;
            }
            let pct = chars_of("%");
            append(&mut t, pct.as_slice());
            Some(string_of(t.as_slice()))
        },
        None => None,
    }
}

/// The suggestion shown for a matching row.
pub fn suggest_record(
    pats: &TitlePatterns,
    code: &str,
    raw_title: &str,
    dept: &str,
    raw_prog: &str,
    orig_path: &str,
) -> (r: SuggestRecord)
    requires
        pats.wf(),
    ensures
        r.course_code@ == code@,
        r.course_title@ == title_label(raw_title@, code@),
        r.department@ == dept@,
        r.program@ == program_label(raw_prog@, dept@, orig_path@),
{
    SuggestRecord {
        course_code: owned(code),
        course_title: clean_title(pats, raw_title, code),
        department: owned(dept),
        program: sanitize_program(raw_prog, dept, orig_path),
    }
}

pub open spec fn suggest_key(r: SuggestRecord) -> (Seq<char>, Seq<char>) {
    (r.course_code@, r.course_title@)
}

pub open spec fn suggest_keys(rs: Seq<SuggestRecord>) -> Seq<(Seq<char>, Seq<char>)> {
    rs.map_values(|r: SuggestRecord| suggest_key(r))
}

/// The suggestions kept from the matching rows, in order: the first row of
/// each (code, title) pair, until eight are kept.
pub open spec fn picked(rs: Seq<SuggestRecord>) -> Seq<SuggestRecord>
    decreases rs.len(),
{
    if rs.len() == 0 {
        seq![]
    } else {
        let p = picked(rs.drop_last());
        if p.len() >= MAX_SUGGESTIONS || suggest_keys(p).contains(suggest_key(rs.last())) {
            p
        } else {
            p.push(rs.last())
        }
    }
}

fn same_key(a: &SuggestRecord, b: &SuggestRecord) -> (r: bool)
    ensures
        r == (suggest_key(*a) == suggest_key(*b)),
{
    let ac = chars_of(a.course_code.as_str());
    let bc = chars_of(b.course_code.as_str());
    let at = chars_of(a.course_title.as_str());
    let bt = chars_of(b.course_title.as_str());
    same(ac.as_slice(), bc.as_slice()) && same(at.as_slice(), bt.as_slice())
}

fn key_seen(out: &Vec<SuggestRecord>, r: &SuggestRecord) -> (b: bool)
    ensures
        b == suggest_keys(out@).contains(suggest_key(*r)),
{
    let mut i: usize = 0;
    while i < out.len()
        invariant
            i <= out@.len(),
            forall|j: int| 0 <= j < i ==> suggest_key(out@[j]) != suggest_key(*r),
        decreases out@.len() - i,
    {
        if same_key(&out[i], r) {
            assert(suggest_keys(out@)[i as int] == suggest_key(*r));
            return true;
        }
        i = i + 1;
    }
    assert forall|j: int| 0 <= j < suggest_keys(out@).len() implies suggest_keys(out@)[j]
        != suggest_key(*r) by {
        assert(suggest_keys(out@)[j] == suggest_key(out@[j]));
    }
    false
}

/// Keeps the first suggestion of each (code, title) pair, at most eight.
pub fn pick_suggestions(rows: Vec<SuggestRecord>) -> (out: Vec<SuggestRecord>)
    ensures
        out@ == picked(rows@),
{
    let ghost all = rows@;
    let mut out: Vec<SuggestRecord> = Vec::new();
    let _n = rows.len();
    let mut rest = rows;
    let mut i: usize = 0;
    assert(all.take(0) =~= Seq::<SuggestRecord>::empty());
    assert(all.skip(0) =~= all);
    while rest.len() > 0
        invariant
            i + rest@.len() == all.len(),
            all.len() <= usize::MAX,
            rest@ == all.skip(i as int),
            out@ == picked(all.take(i as int)),
        decreases rest@.len(),
    {
        let r = rest.remove(0);
        assert(r == all[i as int]);
        assert(rest@ =~= all.skip(i + 1));
        assert(all.take(i + 1).drop_last() =~= all.take(i as int));
        if out.len() < MAX_SUGGESTIONS && !key_seen(&out, &r) {
            out.push(r);
        }
        i = i + 1;
    }
    assert(all.take(i as int) =~= all);
    out
}

/// What the suggestion rule keeps: at most eight suggestions, no two with the
/// same (code, title) pair, each one a row of the input; and a row whose pair
/// is missing from the answer was left out only because eight were kept.
pub proof fn picked_suggestions_are_distinct_and_bounded(rs: Seq<SuggestRecord>)
    ensures
        picked(rs).len() <= MAX_SUGGESTIONS,
        forall|a: int, b: int|
            0 <= a < b < picked(rs).len() ==> suggest_key(picked(rs)[a]) != suggest_key(
                picked(rs)[b],
            ),
        forall|a: int| 0 <= a < picked(rs).len() ==> rs.contains(#[trigger] picked(rs)[a]),
        forall|j: int|
            0 <= j < rs.len() && !suggest_keys(picked(rs)).contains(suggest_key(#[trigger] rs[j]))
                ==> picked(rs).len() == MAX_SUGGESTIONS,
    decreases rs.len(),
{
    if rs.len() > 0 {
        let init = rs.drop_last();
        picked_suggestions_are_distinct_and_bounded(init);
        let p = picked(init);
        let l = rs.last();
        let q = picked(rs);
        assert forall|a: int| 0 <= a < q.len() implies rs.contains(#[trigger] q[a]) by {
            if a < p.len() {
                assert(q[a] == p[a]);
                assert(init.contains(p[a]));
                let k = choose|k: int| 0 <= k < init.len() && init[k] == p[a];
                assert(rs[k] == p[a]);
            } else {
                assert(q[a] == l);
                assert(rs[rs.len() - 1] == l);
            }
        }
        if !(p.len() >= MAX_SUGGESTIONS || suggest_keys(p).contains(suggest_key(l))) {
            assert forall|a: int, b: int| 0 <= a < b < q.len() implies suggest_key(q[a])
                != suggest_key(q[b]) by {
                if b == p.len() {
                    assert(q[a] == p[a]);
                    assert(suggest_keys(p)[a] == suggest_key(p[a]));
                }
            }
        }
        assert forall|j: int|
            0 <= j < rs.len() && !suggest_keys(q).contains(suggest_key(#[trigger] rs[j])) implies q.len()
            == MAX_SUGGESTIONS by {
            if j < init.len() {
                assert(rs[j] == init[j]);
                if suggest_keys(p).contains(suggest_key(init[j])) {
                    let k = choose|k: int| 0 <= k < suggest_keys(p).len() && suggest_keys(p)[k]
                        == suggest_key(init[j]);
                    assert(suggest_keys(q)[k] == suggest_keys(p)[k]);
                }
            } else {
                if !(p.len() >= MAX_SUGGESTIONS) && suggest_keys(p).contains(suggest_key(l)) {
                    let k = choose|k: int| 0 <= k < suggest_keys(p).len() && suggest_keys(p)[k]
                        == suggest_key(l);
                    assert(suggest_keys(q)[k] == suggest_keys(p)[k]);
                }
                if !(p.len() >= MAX_SUGGESTIONS || suggest_keys(p).contains(suggest_key(l))) {
                    assert(suggest_keys(q)[p.len() as int] == suggest_key(l));
                }
            }
        }
    }
}


// ---------------------------------------------------------------------------
// Facets
// ---------------------------------------------------------------------------

/// The program name a facet shows for a stored program name.
pub open spec fn program_facet_name(p: Seq<char>) -> Seq<char> {
    if p == "General"@ || p == "BTech"@ {
        "B.Tech"@
    } else if p == "MTech"@ {
        "M.Tech"@
    } else if p == "Sciences"@ {
        "M.Sc."@
    } else if p == "Communicaiton"@ {
        "B.A. Communication"@
    } else if p == "IntMSc"@ {
        "Integrated M.Sc."@
    } else {
        p
    }
}

/// The sum of the counts of the raw facet entries shown under `name`.
pub open spec fn facet_total(raw: Seq<(String, usize)>, name: Seq<char>) -> nat
    decreases raw.len(),
{
    if raw.len() == 0 {
        0
    } else {
        facet_total(raw.drop_last(), name) + if program_facet_name(raw.last().0@) == name {
            raw.last().1 as nat
        } else {
            0nat
        }
    }
}

/// The sum of all counts.
pub open spec fn count_sum(raw: Seq<(String, usize)>) -> nat
    decreases raw.len(),
{
    if raw.len() == 0 {
        0
    } else {
        count_sum(raw.drop_last()) + raw.last().1 as nat
    }
}

/// `name` is shown for some raw entry.
pub open spec fn facet_shown(raw: Seq<(String, usize)>, name: Seq<char>) -> bool {
    exists|j: int| 0 <= j < raw.len() && program_facet_name(#[trigger] raw[j].0@) == name
}

/// Some entry of `out` carries `name`.
pub open spec fn has_entry(out: Seq<(String, usize)>, name: Seq<char>) -> bool {
    exists|a: int| 0 <= a < out.len() && #[trigger] out[a].0@ == name
}

pub open spec fn sorted_by_count(s: Seq<(String, usize)>) -> bool {
    forall|a: int, b: int| 0 <= a < b < s.len() ==> s[a].1 >= s[b].1
}

pub open spec fn distinct_names(s: Seq<(String, usize)>) -> bool {
    forall|a: int, b: int| 0 <= a < b < s.len() ==> s[a].0@ != s[b].0@
}

/// The merged program facets: one entry per shown name, each with the total
/// of its raw counts, ordered by count, largest first.
pub open spec fn merged_facets(raw: Seq<(String, usize)>, out: Seq<(String, usize)>) -> bool {
    &&& distinct_names(out)
    &&& sorted_by_count(out)
    &&& forall|a: int| 0 <= a < out.len() ==> facet_shown(raw, #[trigger] out[a].0@)
    &&& forall|a: int| 0 <= a < out.len() ==> #[trigger] out[a].1 == facet_total(raw, out[a].0@)
    &&& forall|j: int| 0 <= j < raw.len() ==> has_entry(out, program_facet_name(#[trigger] raw[j].0@))
}

pub fn program_facet_name_of(p: &str) -> (r: String)
    ensures
        r@ == program_facet_name(p@),
{
    let v = chars_of(p);
    let general = chars_of("General");
    let btech = chars_of("BTech");
    let mtech = chars_of("MTech");
    let sciences = chars_of("Sciences");
    let comm = chars_of("Communicaiton");
    let intmsc = chars_of("IntMSc");
    if same(v.as_slice(), general.as_slice()) || same(v.as_slice(), btech.as_slice()) {
        owned("B.Tech")
    } else if same(v.as_slice(), mtech.as_slice()) {
        owned("M.Tech")
    } else if same(v.as_slice(), sciences.as_slice()) {
        owned("M.Sc.")
    } else if same(v.as_slice(), comm.as_slice()) {
        owned("B.A. Communication")
    } else if same(v.as_slice(), intmsc.as_slice()) {
        owned("Integrated M.Sc.")
    } else {
        owned(p)
    }
}

proof fn lemma_facet_total_le_sum(raw: Seq<(String, usize)>, name: Seq<char>)
    ensures
        facet_total(raw, name) <= count_sum(raw),
    decreases raw.len(),
{
    if raw.len() > 0 {
        lemma_facet_total_le_sum(raw.drop_last(), name);
    }
}

proof fn lemma_count_sum_prefix(raw: Seq<(String, usize)>, i: int)
    requires
        0 <= i <= raw.len(),
    ensures
        count_sum(raw.take(i)) <= count_sum(raw),
    decreases raw.len(),
{
    if i < raw.len() {
        assert(raw.drop_last().take(i) =~= raw.take(i));
        lemma_count_sum_prefix(raw.drop_last(), i);
    } else {
        assert(raw.take(i) =~= raw);
    }
}

proof fn lemma_facet_total_absent(raw: Seq<(String, usize)>, name: Seq<char>)
    requires
        !facet_shown(raw, name),
    ensures
        facet_total(raw, name) == 0,
    decreases raw.len(),
{
    if raw.len() > 0 {
        assert(program_facet_name(raw[raw.len() - 1].0@) != name);
        assert(!facet_shown(raw.drop_last(), name)) by {
            if facet_shown(raw.drop_last(), name) {
                let j = choose|j: int| 0 <= j < raw.drop_last().len() && program_facet_name(
                    #[trigger] raw.drop_last()[j].0@,
                ) == name;
                assert(raw[j] == raw.drop_last()[j]);
            }
        }
        lemma_facet_total_absent(raw.drop_last(), name);
    }
}

/// The merging state after the first `j` raw entries: `out` holds one entry
/// per shown name so far, with its total so far.
pub open spec fn merged_upto(raw: Seq<(String, usize)>, j: int, out: Seq<(String, usize)>) -> bool {
    &&& distinct_names(out)
    &&& forall|a: int| 0 <= a < out.len() ==> facet_shown(raw.take(j), #[trigger] out[a].0@)
    &&& forall|a: int| 0 <= a < out.len() ==> #[trigger] out[a].1 == facet_total(raw.take(j), out[a].0@)
    &&& forall|m: int| 0 <= m < j ==> has_entry(out, program_facet_name(#[trigger] raw[m].0@))
}

/// The index of the entry carrying `name`, if any.
fn index_of_name(out: &Vec<(String, usize)>, name: &[char]) -> (r: Option<usize>)
    ensures
        r matches Some(k) ==> k < out@.len() && out@[k as int].0@ == name@,
        r is None ==> !has_entry(out@, name@),
{
    let mut i: usize = 0;
    while i < out.len()
        invariant
            i <= out@.len(),
            forall|k: int| 0 <= k < i ==> out@[k].0@ != name@,
        decreases out@.len() - i,
    {
        let v = chars_of(out[i].0.as_str());
        if same(v.as_slice(), name) {
            return Some(i);
        }
        i = i + 1;
    }
    None
}

proof fn lemma_merge_step(
    raw: Seq<(String, usize)>,
    j: int,
    before: Seq<(String, usize)>,
    after: Seq<(String, usize)>,
    k: int,
)
    requires
        0 <= j < raw.len(),
        merged_upto(raw, j, before),
        0 <= k < after.len(),
        after[k].0@ == program_facet_name(raw[j].0@),
        after[k].1 == facet_total(raw.take(j), after[k].0@) + raw[j].1,
        after.len() == before.len() || after.len() == before.len() + 1,
        after.len() == before.len() ==> k < before.len() && before[k].0@ == after[k].0@,
        after.len() == before.len() + 1 ==> !has_entry(before, after[k].0@) && k == before.len(),
        forall|a: int| 0 <= a < before.len() && a != k ==> after[a] == before[a],
    ensures
        merged_upto(raw, j + 1, after),
{
    let pre = raw.take(j);
    let cur = raw.take(j + 1);
    let name = after[k].0@;
    assert(cur.drop_last() =~= pre);
    assert(cur.last() == raw[j]);
    if after.len() == before.len() + 1 {
        assert(!facet_shown(pre, name)) by {
            if facet_shown(pre, name) {
                let m = choose|m: int| 0 <= m < pre.len() && program_facet_name(#[trigger] pre[m].0@)
                    == name;
                assert(pre[m] == raw[m]);
                assert(has_entry(before, program_facet_name(raw[m].0@)));
            }
        }
        lemma_facet_total_absent(pre, name);
    }
    assert forall|a: int, b: int| 0 <= a < b < after.len() implies after[a].0@ != after[b].0@ by {
        if a != k && b != k {
            assert(after[a] == before[a] && after[b] == before[b]);
        } else if a == k {
            assert(after[b] == before[b]);
            if after.len() == before.len() {
                assert(before[k].0@ != before[b].0@);
            }
        } else {
            assert(after[a] == before[a]);
            if after.len() == before.len() {
                assert(before[a].0@ != before[k].0@);
            }
        }
    }
    assert forall|a: int| 0 <= a < after.len() implies #[trigger] after[a].1 == facet_total(cur, after[a].0@) by {
        if a != k {
            assert(after[a] == before[a]);
        }
    }
    assert forall|a: int| 0 <= a < after.len() implies facet_shown(cur, #[trigger] after[a].0@) by {
        if a == k {
            assert(program_facet_name(cur[j].0@) == after[a].0@);
        } else {
            assert(after[a] == before[a]);
            let m = choose|m: int| 0 <= m < pre.len() && program_facet_name(#[trigger] pre[m].0@)
                == before[a].0@;
            assert(cur[m] == pre[m]);
        }
    }
    assert forall|m: int| 0 <= m < j + 1 implies has_entry(after, program_facet_name(#[trigger] raw[m].0@)) by {
        if m == j {
            assert(after[k].0@ == program_facet_name(raw[m].0@));
        } else {
            let n = program_facet_name(raw[m].0@);
            assert(has_entry(before, n));
            let c = choose|c: int| 0 <= c < before.len() && #[trigger] before[c].0@ == n;
            if c == k {
                assert(after[k].0@ == n);
            } else {
                assert(after[c] == before[c]);
            }
        }
    }
}

/// Merges the raw program facets under their shown names and orders them by
/// count, largest first. The merged counts add up to the raw ones.
pub fn merge_program_facets(raw: Vec<(String, usize)>) -> (out: Vec<(String, usize)>)
    requires
        count_sum(raw@) <= usize::MAX,
    ensures
        merged_facets(raw@, out@),
        shown_sum(out@) == count_sum(raw@),
{
    let mut merged: Vec<(String, usize)> = Vec::new();
    let mut j: usize = 0;
    while j < raw.len()
        invariant
            j <= raw@.len(),
            count_sum(raw@) <= usize::MAX,
            merged_upto(raw@, j as int, merged@),
        decreases raw@.len() - j,
    {
        let ghost before = merged@;
        let shown = program_facet_name_of(raw[j].0.as_str());
        let name = chars_of(shown.as_str());
        let c = raw[j].1;
        proof {
            let cur = raw@.take(j + 1);
            assert(cur.drop_last() =~= raw@.take(j as int));
            assert(cur.last() == raw@[j as int]);
            lemma_count_sum_prefix(raw@, j + 1);
            lemma_facet_total_le_sum(cur, name@);
        }
        match index_of_name(&merged, name.as_slice()) {
            Some(k) => {
                let total = merged[k].1 + c;
                merged.set(k, (shown, total));
                proof {
                    lemma_merge_step(raw@, j as int, before, merged@, k as int);
                }
            },
            None => {
                proof {
                    if facet_shown(raw@.take(j as int), name@) {
                        let m = choose|m: int| 0 <= m < raw@.take(j as int).len() && program_facet_name(
                            #[trigger] raw@.take(j as int)[m].0@,
                        ) == name@;
                        assert(raw@.take(j as int)[m] == raw@[m]);
                        assert(has_entry(before, program_facet_name(raw@[m].0@)));
                    }
                    lemma_facet_total_absent(raw@.take(j as int), name@);
                }
                merged.push((shown, c));
                proof {
                    lemma_merge_step(raw@, j as int, before, merged@, before.len() as int);
                }
            },
        }
        j = j + 1;
    }
    assert(raw@.take(raw@.len() as int) =~= raw@);
    let out = sort_facets(merged, Ghost(raw@));
    proof {
        merged_facets_keep_every_paper(raw@, out@);
    }
    out
}

proof fn lemma_insert_sorted(before: Seq<(String, usize)>, p: int, e: (String, usize))
    requires
        0 <= p <= before.len(),
        sorted_by_count(before),
        distinct_names(before),
        forall|a: int| 0 <= a < p ==> before[a].1 >= e.1,
        forall|a: int| p <= a < before.len() ==> before[a].1 < e.1,
        !has_entry(before, e.0@),
    ensures
        sorted_by_count(before.insert(p, e)),
        distinct_names(before.insert(p, e)),
        forall|a: int| 0 <= a < p ==> before.insert(p, e)[a] == before[a],
        before.insert(p, e)[p] == e,
        forall|a: int| p < a <= before.len() ==> before.insert(p, e)[a] == before[a - 1],
{
    let out = before.insert(p, e);
    assert forall|a: int, b: int| 0 <= a < b < out.len() implies out[a].1 >= out[b].1 by {
        if b < p {
            assert(out[a] == before[a] && out[b] == before[b]);
        } else if b == p {
            assert(out[a] == before[a]);
        } else if a < p {
            assert(out[a] == before[a] && out[b] == before[b - 1]);
        } else if a == p {
            assert(out[b] == before[b - 1]);
        } else {
            assert(out[a] == before[a - 1] && out[b] == before[b - 1]);
        }
    }
    assert forall|a: int, b: int| 0 <= a < b < out.len() implies out[a].0@ != out[b].0@ by {
        if b < p {
            assert(out[a] == before[a] && out[b] == before[b]);
        } else if b == p {
            assert(out[a] == before[a]);
        } else if a < p {
            assert(out[a] == before[a] && out[b] == before[b - 1]);
        } else if a == p {
            assert(out[b] == before[b - 1]);
        } else {
            assert(out[a] == before[a - 1] && out[b] == before[b - 1]);
        }
    }
}

/// `out` holds exactly the entries of `merged[..i]`, in some order.
pub open spec fn holds_first(out: Seq<(String, usize)>, merged: Seq<(String, usize)>, i: int) -> bool {
    &&& out.len() == i
    &&& forall|a: int| 0 <= a < out.len() ==> #[trigger] merged.take(i).contains(out[a])
    &&& forall|k: int| 0 <= k < i ==> #[trigger] out.contains(merged[k])
}

proof fn lemma_sort_step(
    before: Seq<(String, usize)>,
    p: int,
    merged: Seq<(String, usize)>,
    i: int,
)
    requires
        0 <= p <= before.len(),
        0 <= i < merged.len(),
        holds_first(before, merged, i),
    ensures
        holds_first(before.insert(p, merged[i]), merged, i + 1),
{
    let out = before.insert(p, merged[i]);
    assert forall|a: int| 0 <= a < out.len() implies #[trigger] merged.take(i + 1).contains(out[a]) by {
        if a == p {
            assert(merged.take(i + 1)[i] == merged[i]);
        } else {
            let x = if a < p { before[a] } else { before[a - 1] };
            assert(out[a] == x);
            assert(merged.take(i).contains(x));
            let m = choose|m: int| 0 <= m < i && merged.take(i)[m] == x;
            assert(merged.take(i + 1)[m] == x);
        }
    }
    assert forall|k: int| 0 <= k < i + 1 implies #[trigger] out.contains(merged[k]) by {
        if k == i {
            assert(out[p] == merged[i]);
        } else {
            assert(before.contains(merged[k]));
            let a = choose|a: int| 0 <= a < before.len() && before[a] == merged[k];
            if a < p {
                assert(out[a] == merged[k]);
            } else {
                assert(out[a + 1] == merged[k]);
            }
        }
    }
}

/// Orders the merged facets by count, largest first; entries with equal
/// counts keep their order.
fn sort_facets(merged: Vec<(String, usize)>, raw: Ghost<Seq<(String, usize)>>) -> (out: Vec<(String, usize)>)
    requires
        merged_upto(raw@, raw@.len() as int, merged@),
    ensures
        merged_facets(raw@, out@),
{
    let mut out: Vec<(String, usize)> = Vec::new();
    let mut i: usize = 0;
    let n = merged.len();
    assert(raw@.take(raw@.len() as int) =~= raw@);
    while i < n
        invariant
            n == merged@.len(),
            i <= n,
            distinct_names(merged@),
            sorted_by_count(out@),
            distinct_names(out@),
            holds_first(out@, merged@, i as int),
        decreases n - i,
    {
        let c = merged[i].1;
        let mut p: usize = 0;
        while p < out.len() && out[p].1 >= c
            invariant
                p <= out@.len(),
                forall|a: int| 0 <= a < p ==> out@[a].1 >= c,
            decreases out@.len() - p,
        {
            p = p + 1;
        }
        let ghost before = out@;
        let entry = (merged[i].0.clone(), c);
        proof {
            assert(entry == merged@[i as int]);
            assert forall|a: int| p <= a < before.len() implies before[a].1 < c by {
                if a > p {
                    assert(before[p as int].1 >= before[a].1);
                }
            }
            assert(!has_entry(before, entry.0@)) by {
                if has_entry(before, entry.0@) {
                    let a = choose|a: int| 0 <= a < before.len() && #[trigger] before[a].0@ == entry.0@;
                    assert(merged@.take(i as int).contains(before[a]));
                    let m = choose|m: int| 0 <= m < i && merged@.take(i as int)[m] == before[a];
                    assert(merged@[m] == before[a]);
                }
            }
            lemma_insert_sorted(before, p as int, entry);
            lemma_sort_step(before, p as int, merged@, i as int);
        }
        out.insert(p, entry);
        i = i + 1;
    }
    proof {
        assert(merged@.take(n as int) =~= merged@);
        assert forall|a: int| 0 <= a < out@.len() implies facet_shown(raw@, #[trigger] out@[a].0@) && out@[a].1
            == facet_total(raw@, out@[a].0@) by {
            assert(merged@.take(n as int).contains(out@[a]));
            let m = choose|m: int| 0 <= m < n && merged@.take(n as int)[m] == out@[a];
            assert(merged@[m] == out@[a]);
            assert(facet_shown(raw@.take(raw@.len() as int), merged@[m].0@));
            assert(merged@[m].1 == facet_total(raw@.take(raw@.len() as int), merged@[m].0@));
        }
        assert forall|j: int| 0 <= j < raw@.len() implies has_entry(out@, program_facet_name(#[trigger] raw@[j].0@)) by {
            let nm = program_facet_name(raw@[j].0@);
            assert(has_entry(merged@, nm));
            let k = choose|k: int| 0 <= k < merged@.len() && #[trigger] merged@[k].0@ == nm;
            assert(out@.contains(merged@[k]));
            let a = choose|a: int| 0 <= a < out@.len() && out@[a] == merged@[k];
            assert(out@[a].0@ == nm);
        }
    }
    out
}

/// The names of some facet entries.
pub open spec fn facet_names(out: Seq<(String, usize)>) -> Seq<Seq<char>> {
    out.map_values(|e: (String, usize)| e.0@)
}

/// The raw totals of some names, added up.
pub open spec fn totals_of(raw: Seq<(String, usize)>, names: Seq<Seq<char>>) -> nat
    decreases names.len(),
{
    if names.len() == 0 {
        0
    } else {
        totals_of(raw, names.drop_last()) + facet_total(raw, names.last())
    }
}

/// The counts shown for some entries, added up.
pub open spec fn shown_sum(out: Seq<(String, usize)>) -> nat
    decreases out.len(),
{
    if out.len() == 0 {
        0
    } else {
        shown_sum(out.drop_last()) + out.last().1 as nat
    }
}

proof fn lemma_names_distinct(names: Seq<Seq<char>>, out: Seq<(String, usize)>)
    requires
        names == facet_names(out),
        distinct_names(out),
    ensures
        forall|a: int, b: int| 0 <= a < b < names.len() ==> names[a] != names[b],
{
    assert forall|a: int, b: int| 0 <= a < b < names.len() implies names[a] != names[b] by {
        assert(names[a] == out[a].0@);
        assert(names[b] == out[b].0@);
    }
}

/// Adding one raw entry to the raw list adds its count to exactly one of
/// the distinct names when one of them carries its shown name.
proof fn lemma_totals_step(raw: Seq<(String, usize)>, names: Seq<Seq<char>>)
    requires
        raw.len() > 0,
        forall|a: int, b: int| 0 <= a < b < names.len() ==> names[a] != names[b],
    ensures
        totals_of(raw, names) == totals_of(raw.drop_last(), names) + if names.contains(
            program_facet_name(raw.last().0@),
        ) {
            raw.last().1 as nat
        } else {
            0
        },
    decreases names.len(),
{
    if names.len() > 0 {
        let rest = names.drop_last();
        assert forall|a: int, b: int| 0 <= a < b < rest.len() implies rest[a] != rest[b] by {
            assert(rest[a] == names[a]);
            assert(rest[b] == names[b]);
        }
        lemma_totals_step(raw, rest);
        let n = program_facet_name(raw.last().0@);
        if names.last() == n {
            assert(names.contains(n));
            if rest.contains(n) {
                let k = choose|k: int| 0 <= k < rest.len() && rest[k] == n;
                assert(names[k] == names[names.len() - 1]);
            }
        } else {
            if names.contains(n) {
                let k = choose|k: int| 0 <= k < names.len() && names[k] == n;
                assert(rest[k] == n);
            }
            if rest.contains(n) {
                let k = choose|k: int| 0 <= k < rest.len() && rest[k] == n;
                assert(names[k] == n);
            }
        }
    }
}

/// With distinct names covering every raw entry, the names' totals add up
/// to all the counts.
proof fn lemma_totals_cover(raw: Seq<(String, usize)>, names: Seq<Seq<char>>)
    requires
        forall|a: int, b: int| 0 <= a < b < names.len() ==> names[a] != names[b],
        forall|j: int| 0 <= j < raw.len() ==> names.contains(program_facet_name(#[trigger] raw[j].0@)),
    ensures
        totals_of(raw, names) == count_sum(raw),
    decreases raw.len(),
{
    if raw.len() == 0 {
        lemma_totals_empty(raw, names);
    } else {
        let r = raw.drop_last();
        assert forall|j: int| 0 <= j < r.len() implies names.contains(program_facet_name(#[trigger] r[j].0@)) by {
            assert(r[j] == raw[j]);
        }
        lemma_totals_cover(r, names);
        lemma_totals_step(raw, names);
        assert(names.contains(program_facet_name(raw[raw.len() - 1].0@)));
    }
}

proof fn lemma_totals_empty(raw: Seq<(String, usize)>, names: Seq<Seq<char>>)
    requires
        raw.len() == 0,
    ensures
        totals_of(raw, names) == 0,
    decreases names.len(),
{
    if names.len() > 0 {
        lemma_totals_empty(raw, names.drop_last());
    }
}

proof fn lemma_shown_is_totals(raw: Seq<(String, usize)>, out: Seq<(String, usize)>)
    requires
        forall|a: int| 0 <= a < out.len() ==> #[trigger] out[a].1 == facet_total(raw, out[a].0@),
    ensures
        shown_sum(out) == totals_of(raw, facet_names(out)),
    decreases out.len(),
{
    if out.len() > 0 {
        let o = out.drop_last();
        assert forall|a: int| 0 <= a < o.len() implies #[trigger] o[a].1 == facet_total(raw, o[a].0@) by {
            assert(o[a] == out[a]);
        }
        lemma_shown_is_totals(raw, o);
        assert(facet_names(out).drop_last() =~= facet_names(o));
        assert(out[out.len() - 1].1 == facet_total(raw, out[out.len() - 1].0@));
    }
}

/// Merging program facets loses and invents no paper: the merged counts
/// add up to the raw counts.
pub proof fn merged_facets_keep_every_paper(raw: Seq<(String, usize)>, out: Seq<(String, usize)>)
    requires
        merged_facets(raw, out),
    ensures
        shown_sum(out) == count_sum(raw),
{
    let names = facet_names(out);
    lemma_names_distinct(names, out);
    assert forall|j: int| 0 <= j < raw.len() implies names.contains(program_facet_name(#[trigger] raw[j].0@)) by {
        assert(has_entry(out, program_facet_name(raw[j].0@)));
        let a = choose|a: int| 0 <= a < out.len() && #[trigger] out[a].0@ == program_facet_name(raw[j].0@);
        assert(names[a] == out[a].0@);
    }
    lemma_totals_cover(raw, names);
    lemma_shown_is_totals(raw, out);
}

} // verus!
