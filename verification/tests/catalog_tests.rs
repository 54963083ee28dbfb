use exam_archive::catalog::{
    classify_course_category, classify_course_level, classify_department, sanitize_text,
    sanitize_title, slugify,
};
use exam_archive::clock::year_from_seconds;
use exam_archive::metadata::{
    destination_parts_of, extract_pdf_metadata, proposal_row_of, proposed_file_name_of,
    tsv_row_of, CatalogPatterns,
};

const HEADER: &str = "AMRITA VISHWA VIDYAPEETHAM\n   B.Tech Degree Examinations, Third Semester\n\n15CSE201 Data Structures and Algorithms   Time: 3 hours\n2019\n";

#[test]
fn text_is_flattened() {
    assert_eq!(sanitize_text("\ta\nb\r "), "a b");
    assert_eq!(sanitize_text("plain"), "plain");
}

#[test]
fn header_titles_are_cut_at_markers() {
    assert_eq!(sanitize_title("Data Structures Max. Marks: 50"), "Data Structures");
    assert_eq!(sanitize_title("  Signals (Common to ECE)"), "Signals");
    assert_eq!(sanitize_title("  ---  "), "UNKNOWN");
    assert_eq!(sanitize_title(&"a".repeat(70)), "a".repeat(60));
}

#[test]
fn library_slugs() {
    assert_eq!(slugify("Data Structures/Algo  "), "Data_StructuresAlgo");
    assert_eq!(slugify("UNKNOWN"), "unknown");
    assert_eq!(slugify("__x__"), "x");
    assert_eq!(slugify(""), "unknown");
    assert_eq!(slugify(&"b".repeat(70)), "b".repeat(60));
}

#[test]
fn departments() {
    assert_eq!(classify_department("abc", "Intro to Cyber Security", ""), "Computer Science & Engineering");
    assert_eq!(classify_department("19mat101", "", ""), "Mathematics & Statistics");
    assert_eq!(classify_department("XYZ", "", "/x/Social Work/y.pdf"), "Humanities & Social Sciences");
    assert_eq!(classify_department("21VL601", "", ""), "Electronics & Communication");
    assert_eq!(classify_department("", "", ""), "General & Interdisciplinary");
}

#[test]
fn categories() {
    assert_eq!(classify_course_category("15cse281l", "x"), "Lab");
    assert_eq!(classify_course_category("X", "Physics Laboratory"), "Lab");
    assert_eq!(classify_course_category("OEL101", ""), "OpenElective");
    assert_eq!(classify_course_category("15CSE435", ""), "DeptElective");
    assert_eq!(classify_course_category("15CSE201", "Data"), "Core");
}

#[test]
fn levels() {
    assert_eq!(classify_course_level("ABC"), "General Level");
    assert_eq!(classify_course_level("12"), "General Level");
    assert_eq!(classify_course_level("19PHY501"), "100-Level Introductory");
    assert_eq!(classify_course_level("M5011"), "500-600 Level Master's");
    assert_eq!(classify_course_level("x9x99"), "General Level");
    assert_eq!(classify_course_level("CS702"), "700-800 Level Advanced PhD");
}

#[test]
fn years_from_the_clock() {
    assert_eq!(year_from_seconds(0), 1970);
    assert_eq!(year_from_seconds(31_556_926 * 55), 2025);
    assert_eq!(year_from_seconds(31_556_926 * 55 - 1), 2024);
}

#[test]
fn metadata_from_header_text() {
    let pats = CatalogPatterns::compile_all().unwrap();
    let path = "/data/B.Tech/CSE/2019/15CSE201_EndSem.pdf";
    let m = extract_pdf_metadata(&pats, path, Some(HEADER), 2025);
    assert_eq!(m.original_path, path);
    assert_eq!(m.course_code, "15CSE201");
    assert_eq!(m.course_title, "Data Structures and Algorithms");
    assert_eq!(m.program, "B.Tech");
    assert_eq!(m.semester, "Sem03");
    assert_eq!(m.year, "2019");
    assert_eq!(m.exam_type, "EndSem");
    assert_eq!(m.department, "Computer Science & Engineering");
    assert_eq!(m.course_category, "Core");
    assert_eq!(m.course_level, "100-Level Introductory");
    assert_eq!(m.confidence, "high");
    assert_eq!(m.sha256, "");

    assert_eq!(proposed_file_name_of(&m), "15CSE201_Data_Structures_and_Algorithms_EndSem_2019.pdf");
    assert_eq!(
        destination_parts_of(&m),
        vec![
            "Computer Science & Engineering".to_string(),
            "B.Tech".to_string(),
            "Core".to_string(),
            "2019".to_string(),
            "EndSem".to_string(),
            "15CSE201_Data_Structures_and_Algorithms_EndSem_2019.pdf".to_string()
        ]
    );
    assert_eq!(
        tsv_row_of(&m),
        "15CSE201\tData Structures and Algorithms\tComputer Science & Engineering\tB.Tech\tSem03\t2019\tEndSem\tCore\t100-Level Introductory\t/data/B.Tech/CSE/2019/15CSE201_EndSem.pdf"
    );
    assert_eq!(
        proposal_row_of("src.pdf", "dst.pdf", &m),
        "\"src.pdf\",\"dst.pdf\",\"15CSE201\",\"Data Structures and Algorithms\",\"Computer Science & Engineering\",\"B.Tech\",\"Sem03\",\"2019\",\"EndSem\",\"high\""
    );
}

#[test]
fn metadata_from_path_alone() {
    let pats = CatalogPatterns::compile_all().unwrap();
    let path = "/data/M.Tech/VLSI/2nd Semester/21VL601_MidTerm.pdf";
    let m = extract_pdf_metadata(&pats, path, None, 2025);
    assert_eq!(m.course_code, "21VL601");
    assert_eq!(m.course_title, "MidTerm");
    assert_eq!(m.program, "M.Tech");
    assert_eq!(m.semester, "Sem02");
    assert_eq!(m.year, "2025");
    assert_eq!(m.exam_type, "MidTerm");
    assert_eq!(m.department, "Electronics & Communication");
    assert_eq!(m.course_category, "Core");
    assert_eq!(m.course_level, "200-Level Core");
    assert_eq!(m.confidence, "low");
}

#[test]
fn untitled_files_take_their_folder() {
    let pats = CatalogPatterns::compile_all().unwrap();
    let path = "/data/Physics Papers/2021/PHY101.pdf";
    let m = extract_pdf_metadata(&pats, path, None, 2025);
    assert_eq!(m.course_code, "PHY101");
    assert_eq!(m.course_title, "PHY101 (2021");
    assert_eq!(m.year, "2021");
    assert_eq!(m.department, "Physical Sciences");
    assert_eq!(proposed_file_name_of(&m), "PHY101_PHY101_(2021_EndSem_2021.pdf");
}

#[test]
fn header_lines_overwrite_and_stop_after_fifteen() {
    let pats = CatalogPatterns::compile_all().unwrap();
    let mut text = String::from("M.Tech Degree Examinations\nMaster of Computer Applications\nIV Sem (2018)\nSecond Assessment\n");
    for _ in 0..12 {
        text.push_str("x\n");
    }
    text.push_str("PhD 2021\n21CSE101 Compilers Duration: 3 hrs\n");
    let m = extract_pdf_metadata(&pats, "/x/y/21CSE101.pdf", Some(&text), 2025);
    assert_eq!(m.program, "MCA");
    assert_eq!(m.semester, "Sem04");
    assert_eq!(m.year, "2018");
    assert_eq!(m.exam_type, "Ass2");
    assert_eq!(m.course_code, "21CSE101");
    assert_eq!(m.course_title, "Compilers");
    assert_eq!(m.confidence, "high");
    assert_eq!(m.course_level, "200-Level Core");
}

#[test]
fn path_clues() {
    let pats = CatalogPatterns::compile_all().unwrap();
    let a = extract_pdf_metadata(&pats, "/data/PG/Sem/3rd semester/Ass III/CHY501.pdf", None, 2025);
    assert_eq!(a.course_code, "CHY501");
    assert_eq!(a.course_title, "CHY501 (Ass III");
    assert_eq!(a.program, "M.Sc.");
    assert_eq!(a.semester, "Sem03");
    assert_eq!(a.year, "2025");
    assert_eq!(a.exam_type, "Ass1");
    assert_eq!(a.department, "Chemical Sciences");
    assert_eq!(a.course_level, "500-600 Level Master's");

    let b = extract_pdf_metadata(&pats, "/data/Electronics and Communication/1985/EC201.pdf", None, 2025);
    assert_eq!(b.course_code, "EC201");
    assert_eq!(b.program, "B.Tech");
    assert_eq!(b.year, "2025");
    assert_eq!(b.department, "Electronics & Communication");
    assert_eq!(b.semester, "SemGeneral");
    assert_eq!(b.exam_type, "EndSem");
}
