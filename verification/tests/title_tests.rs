use exam_archive::title::sanitize_title;

#[test]
fn test_electrochemistry() {
    assert_eq!(sanitize_title("& Electrochemistry II", "15CHY203"), "Electrochemistry II");
}

#[test]
fn test_research_methodology_dedupe() {
    assert_eq!(sanitize_title("/ 21RM616 Research Methodology/Research Methodology", "21RM616"), "Research Methodology");
}

#[test]
fn test_lowercase_code() {
    assert_eq!(sanitize_title("& OL832 Material Characterization", "OL832"), "Material Characterization");
}

#[test]
fn test_malayalam_concat() {
    assert_eq!(sanitize_title(", 21MAL111, MalayalamII", "21MAL111"), "Malayalam II");
}

#[test]
fn test_algebra_parenthesis() {
    assert_eq!(sanitize_title("Algebra Iii(linear Algebra", "23DLS501"), "Algebra III Linear Algebra");
}

#[test]
fn test_allcaps_and() {
    assert_eq!(sanitize_title(", COMPOSITE MATERIALS AND PROCESSING", "16ME707"), "Composite Materials and Processing");
}

#[test]
fn test_embedded_code_prefix() {
    assert_eq!(sanitize_title("/ 21vl601Embedded Computing and Programming", "21VL601"), "Embedded Computing and Programming");
}

#[test]
fn test_adavanced_typo_code() {
    assert_eq!(sanitize_title("/ 24AI632Adavanced Data Structure", "24AI632"), "Adavanced Data Structure");
}

#[test]
fn test_computational_linear_algebra() {
    assert_eq!(sanitize_title(". Computational Linear Algebra and its Applications", "MA602"), "Computational Linear Algebra and its Applications");
}

#[test]
fn test_reflections_garbage() {
    assert_eq!(sanitize_title(", 002 and 111 reflections.", "15PHY515"), "15PHY515 Examination Paper");
}

#[test]
fn test_semester_metadata_garbage() {
    assert_eq!(sanitize_title("12ELL202 (Third Semester 2015 Regular", "12ELL202"), "12ELL202 Examination Paper");
}
