use exam_archive::tools::{
    counts_as_pdf, get_arg, has_arg, listed_path, rclone_args, sidecar_pdf_path, tally_indexed,
    FileProbe, RawTally, ReconcileTally,
};

fn args(v: &[&str]) -> Vec<String> {
    v.iter().map(|s| s.to_string()).collect()
}

#[test]
fn flag_values() {
    let a = args(&["db_sync", "--root", "/data", "--db", "/x.db", "--root", "/other", "--tail"]);
    assert_eq!(get_arg(&a, "--root"), Some("/data".to_string()));
    assert_eq!(get_arg(&a, "--db"), Some("/x.db".to_string()));
    assert_eq!(get_arg(&a, "--tail"), None);
    assert_eq!(get_arg(&a, "--src"), None);
    assert_eq!(get_arg(&args(&[]), "--src"), None);
}

#[test]
fn flags_present() {
    let a = args(&["upload", "--src", "/a", "--dry-run"]);
    assert!(has_arg(&a, "--dry-run"));
    assert!(!has_arg(&a, "--dry"));
}

#[test]
fn sync_command_keeps_paths_whole() {
    let r = rclone_args("/data/2024 & Exams", "remote:bucket (main)", false);
    assert_eq!(
        r,
        args(&[
            "sync",
            "/data/2024 & Exams",
            "remote:bucket (main)",
            "--exclude",
            "*.meta",
            "--exclude",
            "index.db",
            "--transfers",
            "16",
            "--checkers",
            "32",
            "--checksum",
            "--fast-list",
            "--progress"
        ])
    );
    let d = rclone_args("a", "b", true);
    assert_eq!(d.len(), 15);
    assert_eq!(d[14], "--dry-run");
}

#[test]
fn sidecars_name_their_pdfs() {
    assert_eq!(sidecar_pdf_path("CSE/B.Tech/x.meta"), "CSE/B.Tech/x.pdf");
    assert_eq!(sidecar_pdf_path("y.meta.meta"), "y.pdf");
    assert_eq!(sidecar_pdf_path("plain"), "plain.pdf");
}

#[test]
fn record_paths() {
    let s = |x: &str| Some(Some(x.to_string()));
    assert_eq!(listed_path(s("a"), s("b")), Some("a".to_string()));
    assert_eq!(listed_path(Some(None), s("b")), None);
    assert_eq!(listed_path(None, s("b")), Some("b".to_string()));
    assert_eq!(listed_path(None, None), None);
}

#[test]
fn pdf_files_counted() {
    assert!(counts_as_pdf(true, Some("PdF")));
    assert!(!counts_as_pdf(false, Some("pdf")));
    assert!(!counts_as_pdf(true, Some("pdfx")));
    assert!(!counts_as_pdf(true, None));
}

#[test]
fn raw_tally_counts_hard_links_once() {
    let mut t = RawTally::new();
    t.add(Some((10, 1)));
    t.add(Some((5, 1)));
    t.add(Some((7, 2)));
    t.add(None);
    assert_eq!(t.files, 4);
    assert_eq!(t.bytes, 22);
    assert_eq!(t.inode_count(), 2);
}

fn probe(len: Option<u64>, header: Option<&[u8]>) -> FileProbe {
    FileProbe { len, header: header.map(|h| h.to_vec()) }
}

#[test]
fn indexed_tally() {
    let probes = vec![
        probe(Some(0), None),
        probe(Some(10), Some(b"%PDF-")),
        probe(Some(10), Some(b"<html")),
        probe(Some(3), None),
        probe(None, Some(b"%PDF-")),
    ];
    let t = tally_indexed(&probes);
    assert_eq!(t.total_files, 5);
    assert_eq!(t.total_bytes, 23);
    assert_eq!(t.zero_bytes, 1);
    assert_eq!(t.valid_headers, 1);
    assert_eq!(t.invalid_headers, 2);
}

#[test]
fn indexed_bytes_wrap_like_an_atomic_counter() {
    let probes = vec![probe(Some(u64::MAX), Some(b"%PDF-")), probe(Some(2), Some(b"%PDF-"))];
    let t = tally_indexed(&probes);
    assert_eq!(t.total_bytes, 1);
    assert_eq!(t.valid_headers, 2);
}

#[test]
fn reconcile_tally() {
    let mut t = ReconcileTally::new();
    t.record(Some(true));
    t.record(Some(false));
    t.record(None);
    t.record(Some(true));
    assert_eq!((t.total(), t.matched(), t.missing()), (4, 2, 1));
}
