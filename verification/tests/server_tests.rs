use exam_archive::archive::{batch_archive, entry_name, BatchFile};
use exam_archive::display::{
    format_exam_type, format_level, format_semester, sanitize_code, sanitize_program,
    sanitize_year_at,
};
use exam_archive::query::{expand_synonyms, sanitize_fts_query};
use exam_archive::records::{
    merge_program_facets, paper_record, pick_suggestions, relative_path_of, suggest_pattern_of,
    suggest_record, PaperRow, SuggestRecord,
};
use exam_archive::search::{match_expression_of, plan_search, SearchRequest};
use exam_archive::serving::{
    batch_size_ok, canonical_allowed, classify_pdf_identifier, facets_fresh, health_report,
    inline_disposition, is_pdf_extension, pdf_request, storage_redirect_url, year_facet_sql_of,
    PdfLookup, PdfRequest,
};
use exam_archive::catalog::classify_course_level;
use exam_archive::title::TitlePatterns;
use std::io::Read;

fn request() -> SearchRequest {
    SearchRequest {
        q: None,
        department: None,
        program: None,
        semester: None,
        year: None,
        year_end: None,
        category: None,
        sort: None,
        limit: None,
        offset: None,
    }
}

#[test]
fn year_inside_range_is_kept() {
    assert_eq!(sanitize_year_at("2019", 2025), "2019");
    assert_eq!(sanitize_year_at("1990", 2025), "1990");
    assert_eq!(sanitize_year_at("2026", 2025), "2026");
}

#[test]
fn year_outside_range_becomes_current() {
    assert_eq!(sanitize_year_at("2027", 2025), "2025");
    assert_eq!(sanitize_year_at("1989", 2025), "2025");
    assert_eq!(sanitize_year_at("unknown", 2025), "2025");
    assert_eq!(sanitize_year_at(" 2019", 2025), "2025");
}

#[test]
fn program_aliases() {
    assert_eq!(sanitize_program(" btech ", "", ""), "B.Tech");
    assert_eq!(sanitize_program("M.TECH", "", ""), "M.Tech");
    assert_eq!(sanitize_program("Communicaiton", "", ""), "B.A. Communication");
    assert_eq!(sanitize_program("Mass Communication", "", ""), "B.A. Communication");
    assert_eq!(sanitize_program("intmsc", "", ""), "Integrated M.Sc.");
    assert_eq!(sanitize_program("MBA", "", ""), "MBA");
}

#[test]
fn general_program_guessed_from_context() {
    assert_eq!(sanitize_program("General", "Humanities", "/x/MCA/y.pdf"), "MCA");
    assert_eq!(sanitize_program("Sciences", "Mathematics", "/x/y.pdf"), "M.Sc.");
    assert_eq!(sanitize_program("", "Media", "/x/y.pdf"), "B.A.");
    assert_eq!(sanitize_program("General", "Computer Science", "/x/M.Tech/y.pdf"), "B.Tech");
    assert_eq!(sanitize_program("General", "Other", "/x/M.Tech/y.pdf"), "M.Tech");
    assert_eq!(sanitize_program("General", "Other", "/x/y.pdf"), "B.Tech");
}

#[test]
fn semester_labels() {
    assert_eq!(format_semester("Sem03"), "Semester III");
    assert_eq!(format_semester(" 8th Semester "), "Semester VIII");
    assert_eq!(format_semester("SemSummer"), "Semester Summer");
    assert_eq!(format_semester("Sem10"), "Semester 10");
    assert_eq!(format_semester("Trimester"), "Trimester");
}

#[test]
fn exam_type_labels() {
    assert_eq!(format_exam_type("EndSem"), "End Sem");
    assert_eq!(format_exam_type(" MidTerm "), "Mid Sem");
    assert_eq!(format_exam_type("Ass 2"), "CA II");
    assert_eq!(format_exam_type("AssIII"), "CA III");
    assert_eq!(format_exam_type(" Quiz "), " Quiz ");
}

#[test]
fn course_codes_checked() {
    assert_eq!(sanitize_code(" 15cse201 "), "15CSE201");
    assert_eq!(sanitize_code("AB"), "AMRITA");
    assert_eq!(sanitize_code("12345"), "AMRITA");
    assert_eq!(sanitize_code("CS 101"), "AMRITA");
    assert_eq!(sanitize_code("The"), "THE");
    assert_eq!(sanitize_code("with,x"), "AMRITA");
}

#[test]
fn level_labels() {
    assert_eq!(format_level("800 level"), "Doctoral & Research");
    assert_eq!(format_level("PhD"), "Doctoral & Research");
    assert_eq!(format_level("600"), "Postgraduate Core");
    assert_eq!(format_level("300"), "Undergraduate Major");
    assert_eq!(format_level("100"), "Undergraduate Core");
}

#[test]
fn fts_query_loses_special_characters_and_keywords() {
    assert_eq!(sanitize_fts_query("\"data\" AND (struct*)"), "data struct");
    assert_eq!(sanitize_fts_query("near or not"), "");
    assert_eq!(sanitize_fts_query("a:b\nc"), "a b c");
}

#[test]
fn synonyms_expand() {
    assert_eq!(expand_synonyms("os"), "(OS OR \"Operating Systems\")");
    assert_eq!(expand_synonyms("dsa lab"), "(DSA OR \"Data Structures\") lab*");
    assert_eq!(expand_synonyms("x math"), "x (MAT OR Mathematics)");
    assert_eq!(expand_synonyms("net*"), "net*");
}

#[test]
fn match_expression_combines_both_steps() {
    assert_eq!(match_expression_of(&Some("  ml AND networks ".to_string())), "(ML OR \"Machine Learning\") networks*");
    assert_eq!(match_expression_of(&Some("   ".to_string())), "");
    assert_eq!(match_expression_of(&None), "");
}

#[test]
fn plan_without_filters() {
    let p = plan_search(&request());
    assert_eq!(p.count_sql, "SELECT count(*) FROM papers p  WHERE 1=1 ");
    assert!(p.page_sql.ends_with(" ORDER BY p.year DESC, p.course_code ASC, p.id ASC LIMIT ? OFFSET ?"));
    assert!(p.bindings.is_empty());
    assert_eq!(p.limit, 24);
    assert_eq!(p.offset, 0);
}

#[test]
fn plan_with_text_and_filters() {
    let mut r = request();
    r.q = Some("os".to_string());
    r.department = Some("CSE".to_string());
    r.program = Some("All".to_string());
    r.year = Some("2019".to_string());
    r.year_end = Some("2021".to_string());
    r.limit = Some(500);
    r.offset = Some(48);
    let p = plan_search(&r);
    assert_eq!(
        p.count_sql,
        "SELECT count(*) FROM papers p  JOIN papers_fts fts ON p.id = fts.rowid WHERE papers_fts MATCH ?  AND p.department = ?  AND CAST(p.year AS INTEGER) BETWEEN ? AND ? "
    );
    assert_eq!(
        p.bindings,
        vec![
            "(OS OR \"Operating Systems\")".to_string(),
            "CSE".to_string(),
            "2019".to_string(),
            "2021".to_string()
        ]
    );
    assert!(p.page_sql.contains("ORDER BY bm25(papers_fts, 10.0, 5.0, 2.0, 1.0, 1.0, 1.0, 1.0) ASC, p.id ASC"));
    assert_eq!(p.limit, 100);
    assert_eq!(p.offset, 48);
    assert_eq!(p.count_sql.matches('?').count(), p.bindings.len());
}

#[test]
fn explicit_sort_wins_over_relevance() {
    let mut r = request();
    r.q = Some("networks".to_string());
    r.sort = Some("code_asc".to_string());
    r.limit = Some(0);
    let p = plan_search(&r);
    assert!(p.page_sql.ends_with(" ORDER BY p.course_code ASC, p.id ASC LIMIT ? OFFSET ?"));
    assert_eq!(p.limit, 1);
}

#[test]
fn title_sort_puts_digit_titles_last() {
    let mut r = request();
    r.sort = Some("title_desc".to_string());
    let p = plan_search(&r);
    assert!(p.page_sql.contains("BETWEEN '0' AND '9' THEN 1 ELSE 0 END ASC"));
    assert!(p.page_sql.contains("COLLATE NOCASE DESC, p.id ASC"));
}

#[test]
fn single_year_filter() {
    let mut r = request();
    r.year = Some("2020".to_string());
    r.year_end = Some("All".to_string());
    r.category = Some("Core".to_string());
    let p = plan_search(&r);
    assert_eq!(p.count_sql, "SELECT count(*) FROM papers p  WHERE 1=1  AND p.year = ?  AND p.course_category = ? ");
    assert_eq!(p.bindings, vec!["2020".to_string(), "Core".to_string()]);
}

#[test]
fn relative_paths() {
    assert_eq!(relative_path_of("/data/raw/A/b.pdf", "/data/raw", "/data/idx"), "A/b.pdf");
    assert_eq!(relative_path_of("/data/idx/C/d.pdf", "/data/raw", "/data/idx"), "C/d.pdf");
    assert_eq!(
        relative_path_of("/old/Examination Papers/x.pdf", "/data/raw", "/data/idx"),
        "Examination Papers/x.pdf"
    );
    assert_eq!(relative_path_of("//loose/x.pdf", "/data/raw", "/data/idx"), "loose/x.pdf");
}

#[test]
fn paper_record_from_row() {
    let pats = TitlePatterns::compile_all().unwrap();
    let row = PaperRow {
        id: 7,
        course_code: "".to_string(),
        course_title: "& Electrochemistry II".to_string(),
        department: "Chemistry".to_string(),
        program: "BTech".to_string(),
        semester: "Sem02".to_string(),
        year: "3000".to_string(),
        exam_type: "EndSem".to_string(),
        course_category: "Core".to_string(),
        course_level: "200".to_string(),
        original_path: "/data/raw/Chem/e.pdf".to_string(),
    };
    let rec = paper_record(&pats, row, "/data/raw", "/data/idx", 2024);
    assert_eq!(rec.id, 7);
    assert_eq!(rec.course_code, "AMRITA");
    assert_eq!(rec.course_title, "Electrochemistry II");
    assert_eq!(rec.program, "B.Tech");
    assert_eq!(rec.semester, "Semester II");
    assert_eq!(rec.year, "2024");
    assert_eq!(rec.exam_type, "End Sem");
    assert_eq!(rec.course_level, "Undergraduate Core");
    assert_eq!(rec.relative_path, "Chem/e.pdf");
}

#[test]
fn suggestion_patterns() {
    assert_eq!(suggest_pattern_of(&Some("  data ".to_string())), Some("data%".to_string()));
    assert_eq!(suggest_pattern_of(&Some("  ".to_string())), None);
    assert_eq!(suggest_pattern_of(&None), None);
}

fn suggestion(code: &str, title: &str) -> SuggestRecord {
    SuggestRecord {
        course_code: code.to_string(),
        course_title: title.to_string(),
        department: "D".to_string(),
        program: "P".to_string(),
    }
}

#[test]
fn suggestions_are_distinct_and_at_most_eight() {
    let mut rows = vec![suggestion("A1", "T"), suggestion("A1", "T"), suggestion("A1", "U")];
    for i in 0..10 {
        rows.push(suggestion(&format!("B{i}"), "T"));
    }
    let out = pick_suggestions(rows);
    assert_eq!(out.len(), 8);
    assert_eq!(out[0].course_code, "A1");
    assert_eq!(out[1].course_title, "U");
    assert_eq!(out[2].course_code, "B0");
    assert_eq!(out[7].course_code, "B5");
}

#[test]
fn suggestion_record_is_cleaned() {
    let pats = TitlePatterns::compile_all().unwrap();
    let s = suggest_record(&pats, "21RM616", "/ 21RM616 Research Methodology/Research Methodology", "Mgmt", "General", "/x/MCA/y");
    assert_eq!(s.course_title, "Research Methodology");
    assert_eq!(s.program, "MCA");
}

#[test]
fn program_facets_are_merged() {
    let raw = vec![
        ("General".to_string(), 5),
        ("MCA".to_string(), 4),
        ("BTech".to_string(), 3),
        ("Sciences".to_string(), 2),
        ("B.Tech".to_string(), 1),
    ];
    let out = merge_program_facets(raw);
    assert_eq!(out, vec![("B.Tech".to_string(), 9), ("MCA".to_string(), 4), ("M.Sc.".to_string(), 2)]);
}

#[test]
fn percent_coding() {
    assert!(matches!(classify_pdf_identifier("a%20b%2Fc"), PdfLookup::ByPath(p) if p == "a b/c"));
    assert!(matches!(classify_pdf_identifier("100%"), PdfLookup::ByPath(p) if p == "100%"));
    assert!(matches!(classify_pdf_identifier("%FF"), PdfLookup::ByPath(p) if p == "%FF"));
    let segs = vec!["a b&c.pdf".to_string(), "x~y-z_w.pdf".to_string()];
    assert_eq!(storage_redirect_url("s", &segs), "s/a%20b%26c.pdf/x~y-z_w.pdf");
}

#[test]
fn pdf_requests() {
    assert!(matches!(pdf_request(Some("12".to_string()), Some("../x".to_string())), PdfRequest::Identifier(s) if s == "12"));
    assert!(matches!(pdf_request(None, Some("a/../x".to_string())), PdfRequest::InvalidPath));
    assert!(matches!(pdf_request(None, Some("a/b.pdf".to_string())), PdfRequest::Identifier(s) if s == "a/b.pdf"));
    assert!(matches!(pdf_request(None, None), PdfRequest::Missing));
}

#[test]
fn identifiers_are_classified() {
    assert!(matches!(classify_pdf_identifier("42"), PdfLookup::ById(42)));
    assert!(matches!(classify_pdf_identifier(" /%2F7 "), PdfLookup::ById(7)));
    assert!(matches!(classify_pdf_identifier("/A%20B/c.pdf"), PdfLookup::ByPath(p) if p == "A B/c.pdf"));
    assert!(matches!(classify_pdf_identifier("a/..%2Fb"), PdfLookup::Rejected));
    assert!(matches!(classify_pdf_identifier("%FF"), PdfLookup::ByPath(p) if p == "%FF"));
}

#[test]
fn serving_checks() {
    assert!(canonical_allowed(Some(false), Some(true)));
    assert!(!canonical_allowed(Some(false), None));
    assert!(canonical_allowed(None, None));
    assert!(is_pdf_extension(Some("PDF")));
    assert!(!is_pdf_extension(Some("txt")));
    assert!(!is_pdf_extension(None));
    assert!(batch_size_ok(1));
    assert!(batch_size_ok(50));
    assert!(!batch_size_ok(0));
    assert!(!batch_size_ok(51));
    assert!(facets_fresh(299));
    assert!(!facets_fresh(300));
}

#[test]
fn redirects_and_headers() {
    let segs = vec!["CSE Dept".to_string(), "a&b.pdf".to_string()];
    assert_eq!(storage_redirect_url("https://cdn.example/b//", &segs), "https://cdn.example/b/CSE%20Dept/a%26b.pdf");
    assert_eq!(inline_disposition("x.pdf"), "inline; filename=\"x.pdf\"");
    assert_eq!(
        year_facet_sql_of(2025),
        "SELECT year, count(*) FROM papers WHERE CAST(year AS INTEGER) BETWEEN 1990 AND 2026 GROUP BY year ORDER BY year DESC"
    );
}

#[test]
fn health_answers() {
    let ok = health_report(Some(19600));
    assert_eq!((ok.status.as_str(), ok.database.as_str(), ok.total_papers), ("ok", "connected", 19600));
    let bad = health_report(None);
    assert_eq!((bad.status.as_str(), bad.database.as_str(), bad.total_papers), ("degraded", "connection_failed", 0));
}

#[test]
fn batch_archives_hold_every_paper() {
    let files = vec![
        BatchFile { name: entry_name(Some("a.pdf")), bytes: b"%PDF-1 one".to_vec() },
        BatchFile { name: entry_name(None), bytes: b"%PDF-1 two".to_vec() },
    ];
    let (ok, bytes) = batch_archive(&files);
    assert!(ok);
    assert_eq!(&bytes[..4], b"PK\x03\x04");
    let mut zip = zip::ZipArchive::new(std::io::Cursor::new(bytes)).unwrap();
    assert_eq!(zip.len(), 2);
    let mut second = String::new();
    zip.by_name("document.pdf").unwrap().read_to_string(&mut second).unwrap();
    assert_eq!(second, "%PDF-1 two");
    let mut first = String::new();
    zip.by_index(0).unwrap().read_to_string(&mut first).unwrap();
    assert_eq!(first, "%PDF-1 one");
}

#[test]
fn empty_batches_are_empty_archives() {
    let (ok, bytes) = batch_archive(&Vec::new());
    assert!(ok);
    let zip = zip::ZipArchive::new(std::io::Cursor::new(bytes)).unwrap();
    assert_eq!(zip.len(), 0);
}

#[test]
fn empty_papers_are_kept_as_empty_entries() {
    let files = vec![
        BatchFile { name: entry_name(Some("blank.pdf")), bytes: Vec::new() },
        BatchFile { name: entry_name(Some("b.pdf")), bytes: b"%PDF-1 b".to_vec() },
    ];
    let (ok, bytes) = batch_archive(&files);
    assert!(ok);
    let mut zip = zip::ZipArchive::new(std::io::Cursor::new(bytes)).unwrap();
    assert_eq!(zip.len(), 2);
    assert_eq!(zip.by_name("blank.pdf").unwrap().size(), 0);
    let mut b = String::new();
    zip.by_name("b.pdf").unwrap().read_to_string(&mut b).unwrap();
    assert_eq!(b, "%PDF-1 b");
}

#[test]
fn cleaning_twice_is_cleaning_once() {
    for q in ["\"OS\" AND (kernel*) NOT: paging", "  near  Deadlock\r\n", "a:b\nc", "or", ""] {
        let once = sanitize_fts_query(q);
        assert_eq!(sanitize_fts_query(&once), once);
    }
}

#[test]
fn expansion_goes_word_by_word() {
    for (a, b) in [("os", "kernel"), (" dsa lab", "x  "), ("net*", "\"quoted\"")] {
        let whole = expand_synonyms(&format!("{a} {b}"));
        assert_eq!(whole, format!("{} {}", expand_synonyms(a), expand_synonyms(b)));
    }
    assert_eq!(expand_synonyms("os kernel"), "(OS OR \"Operating Systems\") kernel*");
}

#[test]
fn semester_codes_and_ordinals_read_alike() {
    let ord = ["1st", "2nd", "3rd", "4th", "5th", "6th", "7th", "8th"];
    let rom = ["I", "II", "III", "IV", "V", "VI", "VII", "VIII"];
    for n in 1..=8usize {
        let want = format!("Semester {}", rom[n - 1]);
        assert_eq!(format_semester(&format!("Sem{:02}", n)), want);
        assert_eq!(format_semester(&format!("{} Semester", ord[n - 1])), want);
    }
}

#[test]
fn course_levels_read_by_first_digit() {
    assert_eq!(format_level(&classify_course_level("CS702")), "Doctoral & Research");
    assert_eq!(format_level(&classify_course_level("19ECE801")), "Undergraduate Core");
    assert_eq!(format_level(&classify_course_level("M5011")), "Postgraduate Core");
    assert_eq!(format_level(&classify_course_level("CSE612")), "Postgraduate Core");
    assert_eq!(format_level(&classify_course_level("MA301")), "Undergraduate Major");
    assert_eq!(format_level(&classify_course_level("EE410")), "Undergraduate Major");
    assert_eq!(format_level(&classify_course_level("PH101")), "Undergraduate Core");
    assert_eq!(format_level(&classify_course_level("X12")), "Undergraduate Core");
    assert_eq!(format_level(&classify_course_level("X901")), "Undergraduate Core");
}

#[test]
fn program_labels_are_stable() {
    let cases = [
        ("btech", "", ""),
        (" M.TECH ", "", ""),
        ("", "Dept of Mathematics", ""),
        ("General", "Humanities", ""),
        ("Sciences", "", "/x/MCA/y.pdf"),
        ("Communicaiton", "", ""),
        ("intmsc", "", ""),
        ("  PhD  ", "", ""),
    ];
    for (p, d, o) in cases {
        let once = sanitize_program(p, d, o);
        assert_eq!(sanitize_program(&once, d, o), once);
    }
}

#[test]
fn next_page_starts_where_the_last_ended() {
    let mut first = request();
    first.q = Some("os".to_string());
    first.department = Some("Computer Science".to_string());
    first.limit = Some(500);
    let a = plan_search(&first);
    let mut next = request();
    next.q = first.q.clone();
    next.department = first.department.clone();
    next.limit = first.limit;
    next.offset = Some(a.offset + a.limit);
    let b = plan_search(&next);
    assert_eq!(a.limit, 100);
    assert_eq!(b.limit, a.limit);
    assert_eq!(b.offset, 100);
    assert_eq!(b.page_sql, a.page_sql);
    assert_eq!(b.count_sql, a.count_sql);
    assert_eq!(b.bindings, a.bindings);
    assert!(b.page_sql.ends_with(", p.id ASC LIMIT ? OFFSET ?"));
}

fn order_part(sql: &str) -> String {
    let start = sql.find(" ORDER BY").unwrap();
    sql[start..].to_string()
}

#[test]
fn same_explicit_sort_same_order_whatever_the_query() {
    for sort in ["title_asc", "title_desc", "code_asc", "year_asc"] {
        let mut a = request();
        a.sort = Some(sort.to_string());
        let mut b = request();
        b.sort = Some(sort.to_string());
        b.q = Some("thermodynamics".to_string());
        b.department = Some("Mechanical".to_string());
        let pa = plan_search(&a);
        let pb = plan_search(&b);
        assert_eq!(order_part(&pa.page_sql), order_part(&pb.page_sql));
        assert!(order_part(&pa.page_sql).ends_with(", p.id ASC LIMIT ? OFFSET ?"));
    }
}

#[test]
fn page_queries_take_limit_and_offset_last() {
    let mut r = request();
    r.q = Some("signals".to_string());
    r.semester = Some("Sem05".to_string());
    let p = plan_search(&r);
    assert_eq!(p.page_sql.matches('?').count(), p.bindings.len() + 2);
}

#[test]
fn encoded_segments_decode_back() {
    let name = "Sem 3 & 4/Thermo (é).pdf".to_string();
    let url = storage_redirect_url("s", &vec![name.clone()]);
    let encoded = url.strip_prefix("s/").unwrap();
    assert!(!encoded.contains(' '));
    assert!(matches!(classify_pdf_identifier(encoded), PdfLookup::ByPath(p) if p == name));
}
