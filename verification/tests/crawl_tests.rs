use exam_archive::crawl::{
    bitstream_from_parts, community_page, content_type_allows_pdf, download_precheck,
    drive_probe_due, extract_handle, handle_url_of, is_valid_pdf, item_files, listing_of,
    listing_url_of, megabytes, part_extension_of, save_due, sha256_of, slugify, to_lower_hex,
    unique_items, Discovery, Download, DownloadAction, DownloadEvent, DownloadFailure, Entry,
    FetchAction, FileFetch, ItemPager, PageFetch, Precheck, Reply, Stage, BASE_URL, ROOT_HANDLE,
};

fn entry(h: &str, path: &[&str]) -> Entry {
    Entry { handle: h.to_string(), path: path.iter().map(|s| s.to_string()).collect() }
}

#[test]
fn saved_names() {
    assert_eq!(slugify("  Data Structures.pdf "), "Data Structures.pdf");
    assert_eq!(slugify("a/b:c?.txt"), "abc.txt");
    assert_eq!(slugify("Report. "), "Report");
    assert_eq!(slugify("a. ."), "a");
    assert_eq!(slugify(". ."), ".");
    assert_eq!(slugify("..."), "unknown");
    assert_eq!(slugify(""), "unknown");
    assert_eq!(slugify(".bashrc"), ".bashrc");
}

#[test]
fn long_names_keep_their_extension() {
    let long = format!("{}.pdf", "x".repeat(200));
    let s = slugify(&long);
    assert_eq!(s, format!("{}.pdf", "x".repeat(116)));
    assert_eq!(slugify(&"y".repeat(130)), "y".repeat(120));
}

#[test]
fn handles_in_links() {
    assert_eq!(extract_handle("/xmlui/handle/123456789/42"), Some("123456789/42".to_string()));
    assert_eq!(extract_handle("http://h/xmlui/handle/1/2?x=1"), Some("1/2?x=1".to_string()));
    assert_eq!(extract_handle("/bitstream/1/2"), None);
}

#[test]
fn pdf_bodies() {
    assert!(is_valid_pdf(b"%PDF-1.4\n..."));
    assert!(is_valid_pdf(b"%PDF-"));
    assert!(!is_valid_pdf(b"%PDF"));
    assert!(!is_valid_pdf(b"<html><body>login</body></html>"));
    assert!(content_type_allows_pdf(Some("application/pdf")));
    assert!(content_type_allows_pdf(Some("application/octet-stream")));
    assert!(!content_type_allows_pdf(Some("text/html; charset=utf-8")));
    assert!(content_type_allows_pdf(None));
}

#[test]
fn content_hashes() {
    assert_eq!(sha256_of(b"abc"), "ba7816bf8f01cfea414140de5dae2223b00361a396177a9cb410ff61f20015ad");
    assert_eq!(sha256_of(b""), "e3b0c44298fc1c149afbf4c8996fb92427ae41e4649b934ca495991b7852b855");
    assert_eq!(to_lower_hex(&[0, 15, 171, 255]), "000fabff");
}

fn retry_millis(a: FetchAction) -> (u64, bool) {
    match a {
        FetchAction::Retry { millis, slow_down } => (millis, slow_down),
        FetchAction::Deliver => panic!("delivered"),
        FetchAction::Abandon => panic!("abandoned"),
    }
}

#[test]
fn page_fetch_waits_double_and_stop_after_seven() {
    let mut f = PageFetch::new();
    let mut waits = Vec::new();
    let replies = [
        Reply::Status(500),
        Reply::Status(429),
        Reply::Failed,
        Reply::Status(503),
        Reply::Status(302),
        Reply::Failed,
        Reply::Status(500),
    ];
    for r in replies {
        assert!(f.may_request());
        waits.push(retry_millis(f.reply(r)));
    }
    assert!(!f.may_request());
    assert_eq!(
        waits,
        vec![
            (800, false),
            (1600, true),
            (3200, false),
            (6400, true),
            (12800, false),
            (25600, false),
            (51200, false)
        ]
    );
}

#[test]
fn page_fetch_delivers_or_gives_up() {
    let mut f = PageFetch::new();
    assert!(matches!(f.reply(Reply::Status(200)), FetchAction::Deliver));
    assert!(matches!(f.reply(Reply::Status(404)), FetchAction::Abandon));
    assert!(matches!(f.reply(Reply::Status(403)), FetchAction::Abandon));
    assert!(matches!(f.reply(Reply::Status(201)), FetchAction::Retry { millis: 800, slow_down: false }));
}

#[test]
fn file_fetch_waits_powers_of_two_seconds() {
    let mut f = FileFetch::new();
    let mut waits = Vec::new();
    while f.may_request() {
        waits.push(retry_millis(f.reply(Reply::Status(503))));
    }
    assert_eq!(waits, vec![(1000, true), (2000, true), (4000, true), (8000, true), (16000, true)]);
    let mut g = FileFetch::new();
    assert!(matches!(g.reply(Reply::Status(206)), FetchAction::Deliver));
    assert!(matches!(g.reply(Reply::Status(404)), FetchAction::Abandon));
}

const ROOT_PAGE: &str = r#"<html><body>
<h1 class="ds-div-head">Exam Papers</h1>
<ul>
<li class="ds-artifact-item community"><a href="/xmlui/handle/1/2">School</a></li>
<li class="ds-artifact-item community"><a href="/xmlui/handle/1/1">Back</a></li>
<li class="ds-artifact-item collection"><a href="/xmlui/handle/1/3">B.Tech: CSE</a></li>
<li class="ds-artifact-item collection"><a href="/xmlui/handle/1/3">Duplicate</a></li>
<li class="ds-artifact-item collection"><a href="/about">Not a handle</a></li>
</ul></body></html>"#;

const SCHOOL_PAGE: &str = r#"<html><body>
<h1 class="pagetitle">School of Engineering</h1>
<li class="ds-artifact-item collection"><a href="/xmlui/handle/1/3">Again</a></li>
<li class="ds-artifact-item collection"><a href="/xmlui/handle/1/4">MTech</a></li>
</body></html>"#;

#[test]
fn community_pages_are_read() {
    let p = community_page(ROOT_PAGE);
    assert_eq!(p.title, Some("Exam Papers".to_string()));
    assert_eq!(
        p.communities,
        vec![Some("/xmlui/handle/1/2".to_string()), Some("/xmlui/handle/1/1".to_string())]
    );
    assert_eq!(p.collections.len(), 3);
    assert_eq!(p.collections[0], (Some("/xmlui/handle/1/3".to_string()), "B.Tech: CSE".to_string()));
}

#[test]
fn discovery_visits_each_community_once() {
    let mut d = Discovery::new("1/1");
    let first = d.next_visit().unwrap();
    assert_eq!(first.handle, "1/1");
    assert!(first.path.is_empty());
    d.page_read(&first, Some(ROOT_PAGE));
    let second = d.next_visit().unwrap();
    assert_eq!(second.handle, "1/2");
    assert_eq!(second.path, vec!["Exam Papers".to_string()]);
    d.page_read(&second, Some(SCHOOL_PAGE));
    assert!(d.next_visit().is_none());
    let found = d.collections();
    assert_eq!(found.len(), 2);
    assert_eq!(found[0].handle, "1/3");
    assert_eq!(found[0].path, vec!["Exam Papers".to_string(), "B.Tech CSE".to_string()]);
    assert_eq!(found[1].handle, "1/4");
    assert_eq!(found[1].path, vec!["Exam Papers".to_string(), "School of Engineering".to_string(), "MTech".to_string()]);
}

#[test]
fn unreadable_pages_add_nothing() {
    let mut d = Discovery::new(ROOT_HANDLE);
    let first = d.next_visit().unwrap();
    d.page_read(&first, None);
    assert!(d.next_visit().is_none());
    assert!(d.collections().is_empty());
}

#[test]
fn untitled_pages_use_their_handle() {
    let mut d = Discovery::new("9/9");
    let first = d.next_visit().unwrap();
    d.page_read(&first, Some(r#"<li class="ds-artifact-item collection"><a href="/xmlui/handle/9/10">C</a></li>"#));
    let found = d.collections();
    assert_eq!(found[0].path, vec!["99".to_string(), "C".to_string()]);
}

#[test]
fn addresses() {
    assert_eq!(handle_url_of(BASE_URL, "1/2"), "http://dspace.amritanet.edu:8080/xmlui/handle/1/2");
    assert_eq!(
        listing_url_of("http://h", "1/3", 2),
        "http://h/xmlui/handle/1/3/browse?type=title&rpp=100&etal=0&start=200"
    );
}

const LISTING_PAGE: &str = r#"<html><body>
<div class="artifact-title"><a href="/xmlui/handle/1/10">Paper A</a></div>
<div class="artifact-title"><a href="/elsewhere">Odd</a></div>
<div class="artifact-title"><a href="/xmlui/handle/1/11">Paper B</a></div>
<a rel="next" href="?start=100">Next</a>
</body></html>"#;

const LAST_LISTING_PAGE: &str = r#"<div class="artifact-title"><a href="/xmlui/handle/1/12">Paper C</a></div>"#;

#[test]
fn listings_are_read() {
    let l = listing_of(LISTING_PAGE);
    assert_eq!(l.handles, vec!["1/10".to_string(), "1/11".to_string()]);
    assert!(l.has_next);
    let last = listing_of(LAST_LISTING_PAGE);
    assert!(!last.has_next);
}

#[test]
fn item_pager_walks_pages() {
    let mut p = ItemPager::new(entry("1/3", &["Exam Papers", "CSE"]));
    assert_eq!(p.next_url("http://h").unwrap(), "http://h/xmlui/handle/1/3/browse?type=title&rpp=100&etal=0&start=0");
    p.page_read(Some(LISTING_PAGE));
    assert!(!p.is_done());
    assert_eq!(p.next_url("http://h").unwrap(), "http://h/xmlui/handle/1/3/browse?type=title&rpp=100&etal=0&start=100");
    p.page_read(Some(LAST_LISTING_PAGE));
    assert!(p.is_done());
    assert!(p.next_url("http://h").is_none());
    let items = p.items();
    assert_eq!(items.len(), 3);
    assert_eq!(items[2].handle, "1/12");
    assert_eq!(items[2].path, vec!["Exam Papers".to_string(), "CSE".to_string()]);
}

#[test]
fn empty_or_missing_pages_end_the_walk() {
    let mut p = ItemPager::new(entry("1/3", &[]));
    p.page_read(Some("<html></html>"));
    assert!(p.is_done());
    let mut q = ItemPager::new(entry("1/3", &[]));
    q.page_read(None);
    assert!(q.is_done());
    assert!(q.items().is_empty());
}

#[test]
fn items_keep_first_listing() {
    let all = vec![entry("a", &["x"]), entry("b", &["y"]), entry("a", &["z"])];
    let u = unique_items(&all);
    assert_eq!(u.len(), 2);
    assert_eq!(u[0].path, vec!["x".to_string()]);
    assert_eq!(u[1].handle, "b");
}

const ITEM_PAGE: &str = r#"<html><body>
<div class="file-wrapper"><div class="file-link"><a href="/bitstream/handle/1/10/Exam%20Paper.pdf?sequence=1">View</a></div>
<div class="file-metadata"><span title="Exam Paper (2019).pdf">Exam Paper</span></div></div>
<div class="file-wrapper"><div class="file-link"><a href="/bitstream/handle/1/10/Other%20File.pdf?sequence=2">View</a></div></div>
<div class="file-wrapper"><div class="file-link"><a href="/somewhere/else">x</a></div></div>
<div class="file-wrapper"><div class="file-metadata"><span title="orphan">o</span></div></div>
</body></html>"#;

#[test]
fn item_files_are_listed() {
    let files = item_files(BASE_URL, ITEM_PAGE);
    assert_eq!(files.len(), 2);
    assert_eq!(files[0].url, "http://dspace.amritanet.edu:8080/bitstream/handle/1/10/Exam%20Paper.pdf");
    assert_eq!(files[0].filename, "Exam Paper (2019).pdf");
    assert_eq!(files[1].filename, "Other File.pdf");
}

#[test]
fn bitstream_names_fall_back() {
    let b = bitstream_from_parts("B", &Some("/bitstream/handle/1/2/%FF?x".to_string()), &None).unwrap();
    assert_eq!(b.url, "B/bitstream/handle/1/2/%FF");
    assert_eq!(b.filename, "file.pdf");
    assert!(bitstream_from_parts("B", &None, &Some("t".to_string())).is_none());
}

#[test]
fn download_decisions() {
    assert!(matches!(download_precheck(false, Some(10)), Precheck::Offline));
    assert!(matches!(download_precheck(true, Some(10)), Precheck::Present));
    assert!(matches!(download_precheck(true, Some(0)), Precheck::Fetch));
    assert!(matches!(download_precheck(true, None), Precheck::Fetch));
    assert_eq!(part_extension_of(Some("pdf")), "pdf.part");
    assert_eq!(part_extension_of(Some("PDF")), "PDF.part");
    assert_eq!(part_extension_of(None), "pdf.part");
}

#[test]
fn cadences() {
    assert!(save_due(0));
    assert!(save_due(100));
    assert!(!save_due(51));
    assert!(drive_probe_due(0));
    assert!(drive_probe_due(499_999));
    assert!(!drive_probe_due(500_000));
    assert!(drive_probe_due(25_000_100));
    assert_eq!(megabytes(3 * 1_048_576 + 5), 3);
}

#[test]
fn download_saves_only_checked_pdfs() {
    let mut d = Download::new();
    assert!(matches!(d.step(DownloadEvent::Began { drive_ok: true, existing_len: Some(0) }), DownloadAction::Request));
    assert!(d.fits(&DownloadEvent::NoReply));
    assert!(!d.fits(&DownloadEvent::Saved));
    assert!(matches!(
        d.step(DownloadEvent::Replied { content_type: Some("application/pdf".to_string()) }),
        DownloadAction::ReadBody
    ));
    let hash = match d.step(DownloadEvent::BodyRead { bytes: b"%PDF-1.7 body".to_vec() }) {
        DownloadAction::LinkDuplicate { hash } => hash,
        _ => panic!("expected a lookup"),
    };
    assert_eq!(hash, sha256_of(b"%PDF-1.7 body"));
    assert!(matches!(d.step(DownloadEvent::NotLinked), DownloadAction::CheckDrive));
    assert!(matches!(d.step(DownloadEvent::DriveChecked { ok: true }), DownloadAction::Save));
    match d.step(DownloadEvent::Saved) {
        DownloadAction::Register { hash: h } => assert_eq!(h, hash),
        _ => panic!("expected registration"),
    }
    assert!(matches!(d.stage(), Stage::Done));
}

#[test]
fn download_failures() {
    let mut a = Download::new();
    assert!(matches!(a.step(DownloadEvent::Began { drive_ok: false, existing_len: None }), DownloadAction::Fail(DownloadFailure::DriveOffline)));
    let mut b = Download::new();
    assert!(matches!(b.step(DownloadEvent::Began { drive_ok: true, existing_len: Some(9) }), DownloadAction::Skip));
    let mut c = Download::new();
    c.step(DownloadEvent::Began { drive_ok: true, existing_len: None });
    assert!(matches!(
        c.step(DownloadEvent::Replied { content_type: Some("text/html".to_string()) }),
        DownloadAction::Fail(DownloadFailure::NotPdfType)
    ));
    let mut e = Download::new();
    e.step(DownloadEvent::Began { drive_ok: true, existing_len: None });
    e.step(DownloadEvent::Replied { content_type: None });
    assert!(matches!(
        e.step(DownloadEvent::BodyRead { bytes: b"<html>login</html>".to_vec() }),
        DownloadAction::Fail(DownloadFailure::NotPdfBody)
    ));
    let mut f = Download::new();
    f.step(DownloadEvent::Began { drive_ok: true, existing_len: None });
    f.step(DownloadEvent::Replied { content_type: Some("application/octet-stream".to_string()) });
    f.step(DownloadEvent::BodyRead { bytes: b"%PDF-".to_vec() });
    assert!(matches!(f.step(DownloadEvent::Linked), DownloadAction::Finish));
    let mut g = Download::new();
    g.step(DownloadEvent::Began { drive_ok: true, existing_len: None });
    g.step(DownloadEvent::Replied { content_type: None });
    g.step(DownloadEvent::BodyRead { bytes: b"%PDF-".to_vec() });
    g.step(DownloadEvent::NotLinked);
    assert!(matches!(g.step(DownloadEvent::DriveChecked { ok: false }), DownloadAction::Fail(DownloadFailure::DriveLost)));
}

#[test]
fn saved_names_split_stem_and_extension_as_paths_do() {
    let long = "z".repeat(200);
    for name in [
        format!("{long}.tar.gz"),
        format!(".{long}"),
        format!("{long}.b.c"),
        format!("{long}"),
        "notes.v2.pdf".to_string(),
    ] {
        let p = std::path::Path::new(&name);
        let ext = p.extension().and_then(|e| e.to_str()).unwrap_or("");
        let stem = p.file_stem().and_then(|s| s.to_str()).unwrap_or(&name);
        let room = if ext.is_empty() { 120 } else { 120usize.saturating_sub(ext.len() + 1) };
        let kept: String = stem.chars().take(room).collect();
        let want = if ext.is_empty() { kept } else { format!("{kept}.{ext}") };
        assert_eq!(slugify(&name), want);
    }
    assert_eq!(slugify(&format!("{long}.tar.gz")), format!("{}.gz", "z".repeat(117)));
}
