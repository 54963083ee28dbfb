//! Planning a search request: the SQL text, its bound values and the page.
use vstd::prelude::*;
use crate::display::owned;
use crate::query::{expand_synonyms, expanded_query, fts_query, sanitize_fts_query};
use crate::text::{ends_with, append, chars_of, contains, occurs_at, same, starts_with, string_of, trim, trim_of};

verus! {

/// The parameters of a search request, as the query string gives them.
pub struct SearchRequest {
    pub q: Option<String>,
    pub department: Option<String>,
    pub program: Option<String>,
    pub semester: Option<String>,
    pub year: Option<String>,
    pub year_end: Option<String>,
    pub category: Option<String>,
    pub sort: Option<String>,
    pub limit: Option<usize>,
    pub offset: Option<usize>,
}

/// The SQL for one page of results and for the total count.
pub struct SearchPlan {
    pub count_sql: String,
    pub page_sql: String,
    /// Values for the `?` placeholders of `count_sql`; `page_sql` takes them
    /// followed by `limit` and `offset`.
    pub bindings: Vec<String>,
    pub limit: usize,
    pub offset: usize,
}

pub open spec fn text_of(v: Option<String>) -> Seq<char> {
    match v {
        Some(s) => s@,
        None => seq![],
    }
}

/// A filter parameter applies when it is given, non-empty and not `All`.
pub open spec fn applies(v: Option<String>) -> bool {
    match v {
        Some(s) => s@.len() > 0 && s@ != "All"@,
        None => false,
    }
}

/// The FTS5 match expression for the text query `q` (empty when there is none).
pub open spec fn match_expression(q: Option<String>) -> Seq<char> {
    let raw = trim(text_of(q));
    let cleaned = if raw.len() > 0 {
        fts_query(raw)
    } else {
        seq![]
    };
    if cleaned.len() > 0 {
        expanded_query(cleaned)
    } else {
        seq![]
    }
}

pub open spec fn has_text_query(r: SearchRequest) -> bool {
    trim(match_expression(r.q)).len() > 0
}

pub open spec fn where_clause(r: SearchRequest) -> Seq<char> {
    (if has_text_query(r) {
        " JOIN papers_fts fts ON p.id = fts.rowid WHERE papers_fts MATCH ? "@
    } else {
        " WHERE 1=1 "@
    }) + (if applies(r.department) {
        " AND p.department = ? "@
    } else {
        seq![]
    }) + (if applies(r.program) {
        " AND p.program = ? "@
    } else {
        seq![]
    }) + (if applies(r.semester) {
        " AND p.semester = ? "@
    } else {
        seq![]
    }) + (if applies(r.year) {
        if applies(r.year_end) {
            " AND CAST(p.year AS INTEGER) BETWEEN ? AND ? "@
        } else {
            " AND p.year = ? "@
        }
    } else {
        seq![]
    }) + (if applies(r.category) {
        " AND p.course_category = ? "@
    } else {
        seq![]
    })
}

/// The values bound to the placeholders of `where_clause`, in order.
pub open spec fn where_bindings(r: SearchRequest) -> Seq<Seq<char>> {
    (if has_text_query(r) {
        seq![match_expression(r.q)]
    } else {
        seq![]
    }) + (if applies(r.department) {
        seq![text_of(r.department)]
    } else {
        seq![]
    }) + (if applies(r.program) {
        seq![text_of(r.program)]
    } else {
        seq![]
    }) + (if applies(r.semester) {
        seq![text_of(r.semester)]
    } else {
        seq![]
    }) + (if applies(r.year) {
        if applies(r.year_end) {
            seq![text_of(r.year), text_of(r.year_end)]
        } else {
            seq![text_of(r.year)]
        }
    } else {
        seq![]
    }) + (if applies(r.category) {
        seq![text_of(r.category)]
    } else {
        seq![]
    })
}

/// The ordering: an explicit sort choice wins over relevance; relevance
/// (bm25) is the fallback for text queries; every ordering ends with the
/// row id so that pages never overlap. Title orderings use the cleaned
/// title (the `clean_title` SQL function) and put titles that start with a
/// digit last.
pub open spec fn order_clause(r: SearchRequest) -> Seq<char> {
    let sort = text_of(r.sort);
    if r.sort is Some && sort == "title_asc"@ {
        " ORDER BY CASE WHEN substr(clean_title(p.course_title, p.course_code), 1, 1) BETWEEN '0' AND '9' THEN 1 ELSE 0 END ASC, clean_title(p.course_title, p.course_code) COLLATE NOCASE ASC, p.id ASC"@
    } else if r.sort is Some && sort == "title_desc"@ {
        " ORDER BY CASE WHEN substr(clean_title(p.course_title, p.course_code), 1, 1) BETWEEN '0' AND '9' THEN 1 ELSE 0 END ASC, clean_title(p.course_title, p.course_code) COLLATE NOCASE DESC, p.id ASC"@
    } else if r.sort is Some && sort == "code_asc"@ {
        " ORDER BY p.course_code ASC, p.id ASC"@
    } else if r.sort is Some && sort == "year_asc"@ {
        " ORDER BY p.year ASC, p.course_code ASC, p.id ASC"@
    } else if has_text_query(r) {
        " ORDER BY bm25(papers_fts, 10.0, 5.0, 2.0, 1.0, 1.0, 1.0, 1.0) ASC, p.id ASC"@
    } else {
        " ORDER BY p.year DESC, p.course_code ASC, p.id ASC"@
    }
}

pub open spec fn page_limit(r: SearchRequest) -> usize {
    let l = match r.limit {
        Some(v) => v,
        None => 24,
    };
    if l < 1 {
        1
    } else if l > 100 {
        100
    } else {
        l
    }
}

pub open spec fn page_offset(r: SearchRequest) -> usize {
    match r.offset {
        Some(v) => v,
        None => 0,
    }
}

pub open spec fn count_sql(r: SearchRequest) -> Seq<char> {
    "SELECT count(*) FROM papers p "@ + where_clause(r)
}

pub open spec fn page_sql(r: SearchRequest) -> Seq<char> {
    "SELECT p.id, p.course_code, p.course_title, p.department, p.program, p.semester, p.year, p.exam_type, p.course_category, p.course_level, p.original_path FROM papers p "@
        + where_clause(r) + order_clause(r) + " LIMIT ? OFFSET ?"@
}

fn text_or_empty(v: &Option<String>) -> (r: Vec<char>)
    ensures
        r@ == text_of(*v),
{
    match v {
        Some(s) => chars_of(s.as_str()),
        None => Vec::new(),
    }
}

fn applies_to(v: &Option<String>) -> (b: bool)
    ensures
        b == applies(*v),
{
    match v {
        Some(s) => {
            let c = chars_of(s.as_str());
            let all = chars_of("All");
            c.len() > 0 && !same(c.as_slice(), all.as_slice())
        },
        None => false,
    }
}

/// The FTS5 match expression for a text query.
pub fn match_expression_of(q: &Option<String>) -> (r: String)
    ensures
        r@ == match_expression(*q),
{
    let qv = text_or_empty(q);
    let raw = trim_of(qv.as_slice());
    let raw_s = string_of(raw.as_slice());
    let cleaned = if raw.len() > 0 {
        sanitize_fts_query(raw_s.as_str())
    } else {
        String::new()
    };
    let cv = chars_of(cleaned.as_str());
    if cv.len() > 0 {
        expand_synonyms(cleaned.as_str())
    } else {
        String::new()
    }
}

fn push_text(out: &mut Vec<char>, lit: &str)
    ensures
        final(out)@ == old(out)@ + lit@,
{
    let v = chars_of(lit);
    append(out, v.as_slice());
}

fn order_clause_of(r: &SearchRequest, has_text: bool) -> (o: Vec<char>)
    requires
        has_text == has_text_query(*r),
    ensures
        o@ == order_clause(*r),
{
    let sort = text_or_empty(&r.sort);
    let given = r.sort.is_some();
    let title_asc = chars_of("title_asc");
    let title_desc = chars_of("title_desc");
    let code_asc = chars_of("code_asc");
    let year_asc = chars_of("year_asc");
    if given && same(sort.as_slice(), title_asc.as_slice()) {
        chars_of(
            " ORDER BY CASE WHEN substr(clean_title(p.course_title, p.course_code), 1, 1) BETWEEN '0' AND '9' THEN 1 ELSE 0 END ASC, clean_title(p.course_title, p.course_code) COLLATE NOCASE ASC, p.id ASC",
        )
    } else if given && same(sort.as_slice(), title_desc.as_slice()) {
        chars_of(
            " ORDER BY CASE WHEN substr(clean_title(p.course_title, p.course_code), 1, 1) BETWEEN '0' AND '9' THEN 1 ELSE 0 END ASC, clean_title(p.course_title, p.course_code) COLLATE NOCASE DESC, p.id ASC",
        )
    } else if given && same(sort.as_slice(), code_asc.as_slice()) {
        chars_of(" ORDER BY p.course_code ASC, p.id ASC")
    } else if given && same(sort.as_slice(), year_asc.as_slice()) {
        chars_of(" ORDER BY p.year ASC, p.course_code ASC, p.id ASC")
    } else if has_text {
        chars_of(" ORDER BY bm25(papers_fts, 10.0, 5.0, 2.0, 1.0, 1.0, 1.0, 1.0) ASC, p.id ASC")
    } else {
        chars_of(" ORDER BY p.year DESC, p.course_code ASC, p.id ASC")
    }
}

pub open spec fn binding_views(b: Seq<String>) -> Seq<Seq<char>> {
    b.map_values(|x: String| x@)
}

/// Appends `clause` and the filter's value when the filter applies.
fn add_filter(w: &mut Vec<char>, b: &mut Vec<String>, v: &Option<String>, clause: &str)
    ensures
        final(w)@ == old(w)@ + (if applies(*v) {
            clause@
        } else {
            seq![]
        }),
        binding_views(final(b)@) == binding_views(old(b)@) + (if applies(*v) {
            seq![text_of(*v)]
        } else {
            seq![]
        }),
{
    if applies_to(v) {
        push_text(w, clause);
        let ghost before = binding_views(b@);
        b.push(string_of(text_or_empty(v).as_slice()));
        assert(binding_views(b@) =~= before + seq![text_of(*v)]);
    } else {
        assert(w@ =~= old(w)@ + Seq::<char>::empty());
        assert(binding_views(b@) =~= binding_views(old(b)@) + Seq::<Seq<char>>::empty());
    }
}

/// Appends the year filter: a single year, or a range when an end year applies.
fn add_year_filter(w: &mut Vec<char>, b: &mut Vec<String>, r: &SearchRequest)
    ensures
        final(w)@ == old(w)@ + (if applies(r.year) {
            if applies(r.year_end) {
                " AND CAST(p.year AS INTEGER) BETWEEN ? AND ? "@
            } else {
                " AND p.year = ? "@
            }
        } else {
            seq![]
        }),
        binding_views(final(b)@) == binding_views(old(b)@) + (if applies(r.year) {
            if applies(r.year_end) {
                seq![text_of(r.year), text_of(r.year_end)]
            } else {
                seq![text_of(r.year)]
            }
        } else {
            seq![]
        }),
{
    let ghost before = binding_views(b@);
    if applies_to(&r.year) {
        if applies_to(&r.year_end) {
            push_text(w, " AND CAST(p.year AS INTEGER) BETWEEN ? AND ? ");
            b.push(string_of(text_or_empty(&r.year).as_slice()));
            b.push(string_of(text_or_empty(&r.year_end).as_slice()));
            assert(binding_views(b@) =~= before + seq![text_of(r.year), text_of(r.year_end)]);
        } else {
            push_text(w, " AND p.year = ? ");
            b.push(string_of(text_or_empty(&r.year).as_slice()));
            assert(binding_views(b@) =~= before + seq![text_of(r.year)]);
        }
    } else {
        assert(w@ =~= old(w)@ + Seq::<char>::empty());
        assert(binding_views(b@) =~= before + Seq::<Seq<char>>::empty());
    }
}

fn where_parts(r: &SearchRequest, has_text: bool, fts: String) -> (res: (Vec<char>, Vec<String>))
    requires
        has_text == has_text_query(*r),
        fts@ == match_expression(r.q),
    ensures
        res.0@ == where_clause(*r),
        binding_views(res.1@) == where_bindings(*r),
{
    let mut w: Vec<char> = Vec::new();
    let mut b: Vec<String> = Vec::new();
    if has_text {
        push_text(&mut w, " JOIN papers_fts fts ON p.id = fts.rowid WHERE papers_fts MATCH ? ");
        b.push(fts);
    } else {
        push_text(&mut w, " WHERE 1=1 ");
    }
    let ghost w0 = w@;
    let ghost b0 = binding_views(b@);
    assert(b0 =~= (if has_text_query(*r) {
        seq![match_expression(r.q)]
    } else {
        seq![]
    }));
    add_filter(&mut w, &mut b, &r.department, " AND p.department = ? ");
    add_filter(&mut w, &mut b, &r.program, " AND p.program = ? ");
    add_filter(&mut w, &mut b, &r.semester, " AND p.semester = ? ");
    add_year_filter(&mut w, &mut b, r);
    add_filter(&mut w, &mut b, &r.category, " AND p.course_category = ? ");
    proof {
        assert(w@ =~= where_clause(*r));
        assert(binding_views(b@) =~= where_bindings(*r));
    }
    (w, b)
}

/// Plans the SQL of a search request.
pub fn plan_search(r: &SearchRequest) -> (plan: SearchPlan)
    ensures
        plan.count_sql@ == count_sql(*r),
        plan.page_sql@ == page_sql(*r),
        binding_views(plan.bindings@) == where_bindings(*r),
        plan.limit == page_limit(*r),
        plan.offset == page_offset(*r),
{
    let limit: usize = match r.limit {
        Some(v) => v,
        None => 24,
    };
    let limit = if limit < 1 {
        1
    } else if limit > 100 {
        100
    } else {
        limit
    };
    let offset: usize = match r.offset {
        Some(v) => v,
        None => 0,
    };
    let fts = match_expression_of(&r.q);
    let fv = chars_of(fts.as_str());
    let ft = trim_of(fv.as_slice());
    let has_text = ft.len() > 0;
    let (w, bindings) = where_parts(r, has_text, fts);
    let mut count = chars_of("SELECT count(*) FROM papers p ");
    append(&mut count, w.as_slice());
    let mut page = chars_of(
        "SELECT p.id, p.course_code, p.course_title, p.department, p.program, p.semester, p.year, p.exam_type, p.course_category, p.course_level, p.original_path FROM papers p ",
    );
    append(&mut page, w.as_slice());
    let order = order_clause_of(r, has_text);
    append(&mut page, order.as_slice());
    push_text(&mut page, " LIMIT ? OFFSET ?");
    SearchPlan {
        count_sql: string_of(count.as_slice()),
        page_sql: string_of(page.as_slice()),
        bindings,
        limit,
        offset,
    }
}


pub open spec fn placeholders(s: Seq<char>) -> nat
    decreases s.len(),
{
    if s.len() == 0 {
        0
    } else {
        placeholders(s.drop_last()) + if s.last() == '?' {
            1nat
        } else {
            0nat
        }
    }
}

proof fn lemma_no_placeholders(s: Seq<char>)
    requires
        forall|i: int| 0 <= i < s.len() ==> s[i] != '?',
    ensures
        placeholders(s) == 0,
    decreases s.len(),
{
    if s.len() > 0 {
        lemma_no_placeholders(s.drop_last());
    }
}

proof fn lemma_placeholders_concat(a: Seq<char>, b: Seq<char>)
    ensures
        placeholders(a + b) == placeholders(a) + placeholders(b),
    decreases b.len(),
{
    if b.len() > 0 {
        lemma_placeholders_concat(a, b.drop_last());
        assert((a + b).drop_last() =~= a + b.drop_last());
    } else {
        assert(a + b =~= a);
    }
}

proof fn lemma_placeholders_at(s: Seq<char>, ks: Seq<int>)
    requires
        forall|m: int| 0 <= m < ks.len() ==> 0 <= #[trigger] ks[m] < s.len() && s[ks[m]] == '?',
        forall|m: int, n: int| 0 <= m < n < ks.len() ==> ks[m] < ks[n],
        forall|i: int| 0 <= i < s.len() && s[i] == '?' ==> ks.contains(i),
    ensures
        placeholders(s) == ks.len(),
    decreases s.len(),
{
    if s.len() > 0 {
        let init = s.drop_last();
        if s.last() == '?' {
            assert(ks.contains(s.len() - 1));
            let m = choose|m: int| 0 <= m < ks.len() && ks[m] == s.len() - 1;
            assert(m == ks.len() - 1) by {
                if m < ks.len() - 1 {
                    assert(ks[m] < ks[ks.len() - 1]);
                }
            }
            let ks2 = ks.drop_last();
            assert forall|i: int| 0 <= i < init.len() && init[i] == '?' implies ks2.contains(i) by {
                assert(s[i] == '?');
                let m2 = choose|m2: int| 0 <= m2 < ks.len() && ks[m2] == i;
                assert(m2 != ks.len() - 1);
                assert(ks2[m2] == i);
            }
            lemma_placeholders_at(init, ks2);
        } else {
            assert forall|m: int| 0 <= m < ks.len() implies 0 <= #[trigger] ks[m] < init.len()
                && init[ks[m]] == '?' by {
                if ks[m] == s.len() - 1 {
                    assert(s[ks[m]] == '?');
                }
            }
            assert forall|i: int| 0 <= i < init.len() && init[i] == '?' implies ks.contains(i) by {
                assert(s[i] == '?');
            }
            lemma_placeholders_at(init, ks);
        }
    } else {
        if ks.len() > 0 {
            assert(0 <= ks[0] < s.len());
        }
    }
}

/// The number of `?` placeholders in each fixed piece of SQL text.
proof fn lemma_sql_piece_placeholders()
    ensures
        placeholders(" JOIN papers_fts fts ON p.id = fts.rowid WHERE papers_fts MATCH ? "@) == 1,
        placeholders(" AND p.department = ? "@) == 1,
        placeholders(" AND p.program = ? "@) == 1,
        placeholders(" AND p.semester = ? "@) == 1,
        placeholders(" AND p.year = ? "@) == 1,
        placeholders(" AND p.course_category = ? "@) == 1,
        placeholders(" AND CAST(p.year AS INTEGER) BETWEEN ? AND ? "@) == 2,
        placeholders(" LIMIT ? OFFSET ?"@) == 2,
        placeholders(" WHERE 1=1 "@) == 0,
        placeholders("SELECT count(*) FROM papers p "@) == 0,
        placeholders("SELECT p.id, p.course_code, p.course_title, p.department, p.program, p.semester, p.year, p.exam_type, p.course_category, p.course_level, p.original_path FROM papers p "@) == 0,
        placeholders(" ORDER BY CASE WHEN substr(clean_title(p.course_title, p.course_code), 1, 1) BETWEEN '0' AND '9' THEN 1 ELSE 0 END ASC, clean_title(p.course_title, p.course_code) COLLATE NOCASE ASC, p.id ASC"@) == 0,
        placeholders(" ORDER BY CASE WHEN substr(clean_title(p.course_title, p.course_code), 1, 1) BETWEEN '0' AND '9' THEN 1 ELSE 0 END ASC, clean_title(p.course_title, p.course_code) COLLATE NOCASE DESC, p.id ASC"@) == 0,
        placeholders(" ORDER BY p.course_code ASC, p.id ASC"@) == 0,
        placeholders(" ORDER BY p.year ASC, p.course_code ASC, p.id ASC"@) == 0,
        placeholders(" ORDER BY bm25(papers_fts, 10.0, 5.0, 2.0, 1.0, 1.0, 1.0, 1.0) ASC, p.id ASC"@) == 0,
        placeholders(" ORDER BY p.year DESC, p.course_code ASC, p.id ASC"@) == 0,
{
    reveal_strlit(" JOIN papers_fts fts ON p.id = fts.rowid WHERE papers_fts MATCH ? ");
    {
        let ks = seq![64int];
        let s = " JOIN papers_fts fts ON p.id = fts.rowid WHERE papers_fts MATCH ? "@;
        assert forall|i: int| 0 <= i < s.len() && s[i] == '?' implies ks.contains(i) by {
            if i == 64 {
                assert(ks[0] == 64);
            }
        }
        lemma_placeholders_at(s, ks);
    }
    reveal_strlit(" AND p.department = ? ");
    {
        let ks = seq![20int];
        let s = " AND p.department = ? "@;
        assert forall|i: int| 0 <= i < s.len() && s[i] == '?' implies ks.contains(i) by {
            if i == 20 {
                assert(ks[0] == 20);
            }
        }
        lemma_placeholders_at(s, ks);
    }
    reveal_strlit(" AND p.program = ? ");
    {
        let ks = seq![17int];
        let s = " AND p.program = ? "@;
        assert forall|i: int| 0 <= i < s.len() && s[i] == '?' implies ks.contains(i) by {
            if i == 17 {
                assert(ks[0] == 17);
            }
        }
        lemma_placeholders_at(s, ks);
    }
    reveal_strlit(" AND p.semester = ? ");
    {
        let ks = seq![18int];
        let s = " AND p.semester = ? "@;
        assert forall|i: int| 0 <= i < s.len() && s[i] == '?' implies ks.contains(i) by {
            if i == 18 {
                assert(ks[0] == 18);
            }
        }
        lemma_placeholders_at(s, ks);
    }
    reveal_strlit(" AND p.year = ? ");
    {
        let ks = seq![14int];
        let s = " AND p.year = ? "@;
        assert forall|i: int| 0 <= i < s.len() && s[i] == '?' implies ks.contains(i) by {
            if i == 14 {
                assert(ks[0] == 14);
            }
        }
        lemma_placeholders_at(s, ks);
    }
    reveal_strlit(" AND p.course_category = ? ");
    {
        let ks = seq![25int];
        let s = " AND p.course_category = ? "@;
        assert forall|i: int| 0 <= i < s.len() && s[i] == '?' implies ks.contains(i) by {
            if i == 25 {
                assert(ks[0] == 25);
            }
        }
        lemma_placeholders_at(s, ks);
    }
    reveal_strlit(" AND CAST(p.year AS INTEGER) BETWEEN ? AND ? ");
    {
        let ks = seq![37int, 43int];
        let s = " AND CAST(p.year AS INTEGER) BETWEEN ? AND ? "@;
        assert forall|i: int| 0 <= i < s.len() && s[i] == '?' implies ks.contains(i) by {
            if i == 37 {
                assert(ks[0] == 37);
            }
            if i == 43 {
                assert(ks[1] == 43);
            }
        }
        lemma_placeholders_at(s, ks);
    }
    reveal_strlit(" LIMIT ? OFFSET ?");
    {
        let ks = seq![7int, 16int];
        let s = " LIMIT ? OFFSET ?"@;
        assert forall|i: int| 0 <= i < s.len() && s[i] == '?' implies ks.contains(i) by {
            if i == 7 {
                assert(ks[0] == 7);
            }
            if i == 16 {
                assert(ks[1] == 16);
            }
        }
        lemma_placeholders_at(s, ks);
    }
    reveal_strlit(" WHERE 1=1 ");
    {
        let ks = seq![];
        let s = " WHERE 1=1 "@;
        assert forall|i: int| 0 <= i < s.len() && s[i] == '?' implies ks.contains(i) by {
        }
        lemma_placeholders_at(s, ks);
    }
    reveal_strlit("SELECT count(*) FROM papers p ");
    {
        let ks = seq![];
        let s = "SELECT count(*) FROM papers p "@;
        assert forall|i: int| 0 <= i < s.len() && s[i] == '?' implies ks.contains(i) by {
        }
        lemma_placeholders_at(s, ks);
    }
    reveal_strlit("SELECT p.id, p.course_code, p.course_title, p.department, p.program, p.semester, p.year, p.exam_type, p.course_category, p.course_level, p.original_path FROM papers p ");
    {
        let ks = seq![];
        let s = "SELECT p.id, p.course_code, p.course_title, p.department, p.program, p.semester, p.year, p.exam_type, p.course_category, p.course_level, p.original_path FROM papers p "@;
        assert forall|i: int| 0 <= i < s.len() && s[i] == '?' implies ks.contains(i) by {
        }
        lemma_placeholders_at(s, ks);
    }
    reveal_strlit(" ORDER BY CASE WHEN substr(clean_title(p.course_title, p.course_code), 1, 1) BETWEEN '0' AND '9' THEN 1 ELSE 0 END ASC, clean_title(p.course_title, p.course_code) COLLATE NOCASE ASC, p.id ASC");
    {
        let ks = seq![];
        let s = " ORDER BY CASE WHEN substr(clean_title(p.course_title, p.course_code), 1, 1) BETWEEN '0' AND '9' THEN 1 ELSE 0 END ASC, clean_title(p.course_title, p.course_code) COLLATE NOCASE ASC, p.id ASC"@;
        assert forall|i: int| 0 <= i < s.len() && s[i] == '?' implies ks.contains(i) by {
        }
        lemma_placeholders_at(s, ks);
    }
    reveal_strlit(" ORDER BY CASE WHEN substr(clean_title(p.course_title, p.course_code), 1, 1) BETWEEN '0' AND '9' THEN 1 ELSE 0 END ASC, clean_title(p.course_title, p.course_code) COLLATE NOCASE DESC, p.id ASC");
    {
        let ks = seq![];
        let s = " ORDER BY CASE WHEN substr(clean_title(p.course_title, p.course_code), 1, 1) BETWEEN '0' AND '9' THEN 1 ELSE 0 END ASC, clean_title(p.course_title, p.course_code) COLLATE NOCASE DESC, p.id ASC"@;
        assert forall|i: int| 0 <= i < s.len() && s[i] == '?' implies ks.contains(i) by {
        }
        lemma_placeholders_at(s, ks);
    }
    reveal_strlit(" ORDER BY p.course_code ASC, p.id ASC");
    {
        let ks = seq![];
        let s = " ORDER BY p.course_code ASC, p.id ASC"@;
        assert forall|i: int| 0 <= i < s.len() && s[i] == '?' implies ks.contains(i) by {
        }
        lemma_placeholders_at(s, ks);
    }
    reveal_strlit(" ORDER BY p.year ASC, p.course_code ASC, p.id ASC");
    {
        let ks = seq![];
        let s = " ORDER BY p.year ASC, p.course_code ASC, p.id ASC"@;
        assert forall|i: int| 0 <= i < s.len() && s[i] == '?' implies ks.contains(i) by {
        }
        lemma_placeholders_at(s, ks);
    }
    reveal_strlit(" ORDER BY bm25(papers_fts, 10.0, 5.0, 2.0, 1.0, 1.0, 1.0, 1.0) ASC, p.id ASC");
    {
        let ks = seq![];
        let s = " ORDER BY bm25(papers_fts, 10.0, 5.0, 2.0, 1.0, 1.0, 1.0, 1.0) ASC, p.id ASC"@;
        assert forall|i: int| 0 <= i < s.len() && s[i] == '?' implies ks.contains(i) by {
        }
        lemma_placeholders_at(s, ks);
    }
    reveal_strlit(" ORDER BY p.year DESC, p.course_code ASC, p.id ASC");
    {
        let ks = seq![];
        let s = " ORDER BY p.year DESC, p.course_code ASC, p.id ASC"@;
        assert forall|i: int| 0 <= i < s.len() && s[i] == '?' implies ks.contains(i) by {
        }
        lemma_placeholders_at(s, ks);
    }
}

/// Every `?` placeholder of a planned query gets exactly one bound value:
/// the count query has one placeholder per binding, and the page query two
/// more, for the limit and the offset.
pub proof fn plan_placeholders_match_bindings(r: SearchRequest)
    ensures
        placeholders(count_sql(r)) == where_bindings(r).len(),
        placeholders(page_sql(r)) == where_bindings(r).len() + 2,
{
    lemma_sql_piece_placeholders();
    let e: Seq<char> = seq![];
    assert(placeholders(e) == 0);
    let p0 = if has_text_query(r) {
        " JOIN papers_fts fts ON p.id = fts.rowid WHERE papers_fts MATCH ? "@
    } else {
        " WHERE 1=1 "@
    };
    let p1 = if applies(r.department) { " AND p.department = ? "@ } else { e };
    let p2 = if applies(r.program) { " AND p.program = ? "@ } else { e };
    let p3 = if applies(r.semester) { " AND p.semester = ? "@ } else { e };
    let p4 = if applies(r.year) {
        if applies(r.year_end) {
            " AND CAST(p.year AS INTEGER) BETWEEN ? AND ? "@
        } else {
            " AND p.year = ? "@
        }
    } else {
        e
    };
    let p5 = if applies(r.category) { " AND p.course_category = ? "@ } else { e };
    assert(where_clause(r) == p0 + p1 + p2 + p3 + p4 + p5);
    lemma_placeholders_concat(p0, p1);
    lemma_placeholders_concat(p0 + p1, p2);
    lemma_placeholders_concat(p0 + p1 + p2, p3);
    lemma_placeholders_concat(p0 + p1 + p2 + p3, p4);
    lemma_placeholders_concat(p0 + p1 + p2 + p3 + p4, p5);
    lemma_placeholders_concat("SELECT count(*) FROM papers p "@, where_clause(r));
    let head = "SELECT p.id, p.course_code, p.course_title, p.department, p.program, p.semester, p.year, p.exam_type, p.course_category, p.course_level, p.original_path FROM papers p "@;
    lemma_placeholders_concat(head, where_clause(r));
    lemma_placeholders_concat(head + where_clause(r), order_clause(r));
    lemma_placeholders_concat(head + where_clause(r) + order_clause(r), " LIMIT ? OFFSET ?"@);
}

/// The sort choices a user can make explicitly.
pub open spec fn explicit_sort(s: Seq<char>) -> bool {
    s == "title_asc"@ || s == "title_desc"@ || s == "code_asc"@ || s == "year_asc"@
}

/// An explicit sort choice outranks relevance: two requests with the same
/// explicit choice are ordered alike, whatever their text queries and
/// filters.
pub proof fn explicit_sort_wins(r1: SearchRequest, r2: SearchRequest)
    requires
        r1.sort is Some,
        r2.sort is Some,
        text_of(r1.sort) == text_of(r2.sort),
        explicit_sort(text_of(r1.sort)),
    ensures
        order_clause(r1) == order_clause(r2),
{
}

/// Every ordering ends with the row id, so that the order is total and
/// consecutive pages never share or skip a row.
pub proof fn every_ordering_ends_with_the_row_id(r: SearchRequest)
    ensures
        ends_with(order_clause(r), ", p.id ASC"@),
{
    reveal_strlit(", p.id ASC");
    let tail = ", p.id ASC"@;
    let o = order_clause(r);
    reveal_strlit(" ORDER BY CASE WHEN substr(clean_title(p.course_title, p.course_code), 1, 1) BETWEEN '0' AND '9' THEN 1 ELSE 0 END ASC, clean_title(p.course_title, p.course_code) COLLATE NOCASE ASC, p.id ASC");
    reveal_strlit(" ORDER BY CASE WHEN substr(clean_title(p.course_title, p.course_code), 1, 1) BETWEEN '0' AND '9' THEN 1 ELSE 0 END ASC, clean_title(p.course_title, p.course_code) COLLATE NOCASE DESC, p.id ASC");
    reveal_strlit(" ORDER BY p.course_code ASC, p.id ASC");
    reveal_strlit(" ORDER BY p.year ASC, p.course_code ASC, p.id ASC");
    reveal_strlit(" ORDER BY bm25(papers_fts, 10.0, 5.0, 2.0, 1.0, 1.0, 1.0, 1.0) ASC, p.id ASC");
    reveal_strlit(" ORDER BY p.year DESC, p.course_code ASC, p.id ASC");
    assert(o.subrange(o.len() - tail.len(), o.len() as int) =~= tail);
}

/// The next page of a search is asked with the same statement, the same
/// bindings and the same page size, and starts where the previous page
/// ended; as the ordering is total (it ends with the row id), pages read
/// one after another over unchanged data neither share nor skip a row.
pub proof fn next_page_follows_on(r1: SearchRequest, r2: SearchRequest)
    requires
        r2.q == r1.q,
        r2.department == r1.department,
        r2.program == r1.program,
        r2.semester == r1.semester,
        r2.year == r1.year,
        r2.year_end == r1.year_end,
        r2.category == r1.category,
        r2.sort == r1.sort,
        r2.limit == r1.limit,
        r2.offset == Some((page_offset(r1) + page_limit(r1)) as usize),
        page_offset(r1) + page_limit(r1) <= usize::MAX,
    ensures
        page_sql(r2) == page_sql(r1),
        count_sql(r2) == count_sql(r1),
        where_bindings(r2) == where_bindings(r1),
        page_limit(r2) == page_limit(r1),
        page_offset(r2) == page_offset(r1) + page_limit(r1),
        ends_with(order_clause(r2), ", p.id ASC"@),
{
    every_ordering_ends_with_the_row_id(r2);
}

proof fn lemma_order_title_asc(r: SearchRequest)
    requires
        r.sort is Some && text_of(r.sort) == "title_asc"@,
    ensures
        order_clause(r) == " ORDER BY CASE WHEN substr(clean_title(p.course_title, p.course_code), 1, 1) BETWEEN '0' AND '9' THEN 1 ELSE 0 END ASC, clean_title(p.course_title, p.course_code) COLLATE NOCASE ASC, p.id ASC"@,
{
    reveal_strlit("title_asc");
    assert("title_asc"@.len() == 9);
}

proof fn lemma_order_title_desc(r: SearchRequest)
    requires
        r.sort is Some && text_of(r.sort) == "title_desc"@,
    ensures
        order_clause(r) == " ORDER BY CASE WHEN substr(clean_title(p.course_title, p.course_code), 1, 1) BETWEEN '0' AND '9' THEN 1 ELSE 0 END ASC, clean_title(p.course_title, p.course_code) COLLATE NOCASE DESC, p.id ASC"@,
{
    reveal_strlit("title_desc");
    assert("title_desc"@.len() == 10);
    reveal_strlit("title_asc");
    assert("title_asc"@.len() == 9);
    assert("title_desc"@ != "title_asc"@);
}

proof fn lemma_order_code_asc(r: SearchRequest)
    requires
        r.sort is Some && text_of(r.sort) == "code_asc"@,
    ensures
        order_clause(r) == " ORDER BY p.course_code ASC, p.id ASC"@,
{
    reveal_strlit("code_asc");
    assert("code_asc"@.len() == 8);
    reveal_strlit("title_asc");
    assert("title_asc"@.len() == 9);
    reveal_strlit("title_desc");
    assert("title_desc"@.len() == 10);
    assert("code_asc"@ != "title_asc"@);
    assert("code_asc"@ != "title_desc"@);
}

proof fn lemma_order_year_asc(r: SearchRequest)
    requires
        r.sort is Some && text_of(r.sort) == "year_asc"@,
    ensures
        order_clause(r) == " ORDER BY p.year ASC, p.course_code ASC, p.id ASC"@,
{
    reveal_strlit("year_asc");
    assert("year_asc"@.len() == 8);
    reveal_strlit("title_asc");
    assert("title_asc"@.len() == 9);
    reveal_strlit("title_desc");
    assert("title_desc"@.len() == 10);
    reveal_strlit("code_asc");
    assert("code_asc"@.len() == 8);
    assert("year_asc"@ != "title_asc"@);
    assert("year_asc"@ != "title_desc"@);
    assert("year_asc"@[0] == 'y');
    assert("code_asc"@[0] == 'c');
    assert("year_asc"@ != "code_asc"@);
}

/// Whether a sort choice is one of the four the search offers.
pub open spec fn chosen_sort(r: SearchRequest) -> bool {
    r.sort is Some && (text_of(r.sort) == "title_asc"@ || text_of(r.sort) == "title_desc"@
        || text_of(r.sort) == "code_asc"@ || text_of(r.sort) == "year_asc"@)
}

/// Each sort choice orders by what it names: `year_asc` by year, oldest
/// first; `code_asc` by course code; `title_asc` and `title_desc` by the
/// cleaned title, A to Z and Z to A. Without a sort choice a text query is
/// ordered by relevance (bm25) and anything else by year, newest first; so
/// `year_asc` never gives the order the request would get without it.
pub proof fn sort_choices_order_as_named(r: SearchRequest, unsorted: SearchRequest)
    ensures
        r.sort is Some && text_of(r.sort) == "year_asc"@ ==> starts_with(order_clause(r), " ORDER BY p.year ASC,"@),
        r.sort is Some && text_of(r.sort) == "code_asc"@ ==> starts_with(order_clause(r), " ORDER BY p.course_code ASC,"@),
        r.sort is Some && text_of(r.sort) == "title_asc"@ ==> contains(order_clause(r), "clean_title(p.course_title, p.course_code) COLLATE NOCASE ASC"@),
        r.sort is Some && text_of(r.sort) == "title_desc"@ ==> contains(order_clause(r), "clean_title(p.course_title, p.course_code) COLLATE NOCASE DESC"@),
        !chosen_sort(r) && has_text_query(r) ==> starts_with(order_clause(r), " ORDER BY bm25("@),
        !chosen_sort(r) && !has_text_query(r) ==> starts_with(order_clause(r), " ORDER BY p.year DESC,"@),
        r.sort is Some && text_of(r.sort) == "year_asc"@ && unsorted.sort is None && unsorted.q == r.q
            ==> order_clause(r) != order_clause(unsorted),
{
    if r.sort is Some && text_of(r.sort) == "title_asc"@ {
        lemma_order_title_asc(r);
    }
    if r.sort is Some && text_of(r.sort) == "title_desc"@ {
        lemma_order_title_desc(r);
    }
    if r.sort is Some && text_of(r.sort) == "code_asc"@ {
        lemma_order_code_asc(r);
    }
    if r.sort is Some && text_of(r.sort) == "year_asc"@ {
        lemma_order_year_asc(r);
    }
    reveal_strlit(" ORDER BY CASE WHEN substr(clean_title(p.course_title, p.course_code), 1, 1) BETWEEN '0' AND '9' THEN 1 ELSE 0 END ASC, clean_title(p.course_title, p.course_code) COLLATE NOCASE ASC, p.id ASC");
    reveal_strlit(" ORDER BY CASE WHEN substr(clean_title(p.course_title, p.course_code), 1, 1) BETWEEN '0' AND '9' THEN 1 ELSE 0 END ASC, clean_title(p.course_title, p.course_code) COLLATE NOCASE DESC, p.id ASC");
    reveal_strlit(" ORDER BY p.course_code ASC, p.id ASC");
    reveal_strlit(" ORDER BY p.year ASC, p.course_code ASC, p.id ASC");
    reveal_strlit(" ORDER BY bm25(papers_fts, 10.0, 5.0, 2.0, 1.0, 1.0, 1.0, 1.0) ASC, p.id ASC");
    reveal_strlit(" ORDER BY p.year DESC, p.course_code ASC, p.id ASC");
    reveal_strlit(" ORDER BY p.year ASC,");
    reveal_strlit(" ORDER BY p.course_code ASC,");
    reveal_strlit(" ORDER BY bm25(");
    reveal_strlit(" ORDER BY p.year DESC,");
    reveal_strlit("clean_title(p.course_title, p.course_code) COLLATE NOCASE ASC");
    reveal_strlit("clean_title(p.course_title, p.course_code) COLLATE NOCASE DESC");
    reveal_strlit("title_asc");
    reveal_strlit("title_desc");
    reveal_strlit("code_asc");
    reveal_strlit("year_asc");
    assert(" ORDER BY p.year ASC, p.course_code ASC, p.id ASC"@.subrange(0, 21) =~= " ORDER BY p.year ASC,"@);
    assert(" ORDER BY p.course_code ASC, p.id ASC"@.subrange(0, 28) =~= " ORDER BY p.course_code ASC,"@);
    assert(" ORDER BY bm25(papers_fts, 10.0, 5.0, 2.0, 1.0, 1.0, 1.0, 1.0) ASC, p.id ASC"@.subrange(0, 15) =~= " ORDER BY bm25("@);
    assert(" ORDER BY p.year DESC, p.course_code ASC, p.id ASC"@.subrange(0, 22) =~= " ORDER BY p.year DESC,"@);
    assert(" ORDER BY CASE WHEN substr(clean_title(p.course_title, p.course_code), 1, 1) BETWEEN '0' AND '9' THEN 1 ELSE 0 END ASC, clean_title(p.course_title, p.course_code) COLLATE NOCASE ASC, p.id ASC"@.subrange(120, 181) =~= "clean_title(p.course_title, p.course_code) COLLATE NOCASE ASC"@);
    assert(occurs_at(" ORDER BY CASE WHEN substr(clean_title(p.course_title, p.course_code), 1, 1) BETWEEN '0' AND '9' THEN 1 ELSE 0 END ASC, clean_title(p.course_title, p.course_code) COLLATE NOCASE ASC, p.id ASC"@, "clean_title(p.course_title, p.course_code) COLLATE NOCASE ASC"@, 120));
    assert(" ORDER BY CASE WHEN substr(clean_title(p.course_title, p.course_code), 1, 1) BETWEEN '0' AND '9' THEN 1 ELSE 0 END ASC, clean_title(p.course_title, p.course_code) COLLATE NOCASE DESC, p.id ASC"@.subrange(120, 182) =~= "clean_title(p.course_title, p.course_code) COLLATE NOCASE DESC"@);
    assert(occurs_at(" ORDER BY CASE WHEN substr(clean_title(p.course_title, p.course_code), 1, 1) BETWEEN '0' AND '9' THEN 1 ELSE 0 END ASC, clean_title(p.course_title, p.course_code) COLLATE NOCASE DESC, p.id ASC"@, "clean_title(p.course_title, p.course_code) COLLATE NOCASE DESC"@, 120));
    assert(" ORDER BY p.year ASC, p.course_code ASC, p.id ASC"@[17] == 'A');
    assert(" ORDER BY p.year DESC, p.course_code ASC, p.id ASC"@[17] == 'D');
    assert(" ORDER BY bm25(papers_fts, 10.0, 5.0, 2.0, 1.0, 1.0, 1.0, 1.0) ASC, p.id ASC"@[10] == 'b');
    assert(" ORDER BY p.year ASC, p.course_code ASC, p.id ASC"@[10] == 'p');
}

} // verus!
