//! Serving stored PDFs and the smaller API answers: which file a request
//! names, where a storage redirect points, facet and health answers.
use vstd::prelude::*;
use vstd::utf8::{decode_utf8, encode_utf8, valid_utf8};
use crate::display::owned;
use crate::numbers::{i64_text, int_text, parse_i64, parse_i64_of};
use crate::text::{
    append, chars_of, contains, contains_in, join, join_words, lowercase, same, strip_end,
    strip_end_of, strip_start, strip_start_of, string_of, to_lowercase, trim, trim_of, views,
    CharClass,
};

verus! {

// ---------------------------------------------------------------------------
// Percent-encoding (the `urlencoding` crate)
// ---------------------------------------------------------------------------

pub open spec fn is_hex_digit(b: u8) -> bool {
    (48 <= b <= 57) || (65 <= b <= 70) || (97 <= b <= 102)
}

pub open spec fn hex_value(b: u8) -> int {
    if 48 <= b <= 57 {
        b - 48
    } else if 65 <= b <= 70 {
        b - 55
    } else {
        b - 87
    }
}

/// Percent-decoding of bytes: `%` and two hex digits become that byte;
/// every other byte, a lone `%` included, is kept.
pub open spec fn percent_decoded(b: Seq<u8>) -> Seq<u8>
    decreases b.len(),
{
    if b.len() == 0 {
        seq![]
    } else if b[0] == 37 && b.len() >= 3 && is_hex_digit(b[1]) && is_hex_digit(b[2]) {
        seq![(hex_value(b[1]) * 16 + hex_value(b[2])) as u8] + percent_decoded(b.skip(3))
    } else {
        seq![b[0]] + percent_decoded(b.skip(1))
    }
}

/// `urlencoding::decode`: the percent-decoded text, or `None` when the
/// decoded bytes are not UTF-8.
pub open spec fn url_decoded(s: Seq<char>) -> Option<Seq<char>> {
    let d = percent_decoded(encode_utf8(s));
    if valid_utf8(d) {
        Some(decode_utf8(d))
    } else {
        None
    }
}

pub open spec fn is_unreserved(b: u8) -> bool {
    (48 <= b <= 57) || (65 <= b <= 90) || (97 <= b <= 122) || b == 45 || b == 46 || b == 95
        || b == 126
}

pub open spec fn hex_upper(d: int) -> char {
    if d < 10 {
        ((48 + d) as u8) as char
    } else {
        ((55 + d) as u8) as char
    }
}

/// Percent-encoding of bytes: ASCII letters, digits and `-` `.` `_` `~`
/// kept, every other byte written `%XX` in upper-case hex.
pub open spec fn percent_encoded(b: Seq<u8>) -> Seq<char>
    decreases b.len(),
{
    if b.len() == 0 {
        seq![]
    } else {
        let head = if is_unreserved(b[0]) {
            seq![b[0] as char]
        } else {
            seq!['%', hex_upper((b[0] / 16) as int), hex_upper((b[0] % 16) as int)]
        };
        head + percent_encoded(b.skip(1))
    }
}

/// `urlencoding::encode` of a string.
pub open spec fn url_encoded(s: Seq<char>) -> Seq<char> {
    percent_encoded(encode_utf8(s))
}

/// Calls `urlencoding::decode`: the decoded text, or `None` where the
/// decoded bytes are not valid UTF-8.
#[verifier::external_body]
pub(crate) fn url_decode(s: &str) -> (r: Option<String>)
    ensures
        r matches Some(d) ==> url_decoded(s@) == Some(d@),
        r is None ==> url_decoded(s@) is None,
{
    urlencoding::decode(s).ok().map(|c| c.into_owned())
}

/// Calls `urlencoding::encode`.
#[verifier::external_body]
pub(crate) fn url_encode(s: &str) -> (r: String)
    ensures
        r@ == url_encoded(s@),
{
    urlencoding::encode(s).into_owned()
}

/// The bytes of a percent-encoding (it is ASCII).
pub open spec fn percent_encoded_bytes(b: Seq<u8>) -> Seq<u8> {
    percent_encoded(b).map_values(|c: char| c as u8)
}

proof fn lemma_percent_encoded_step(b: Seq<u8>)
    requires
        b.len() > 0,
    ensures
        percent_encoded(b) == (if is_unreserved(b[0]) {
            seq![b[0] as char]
        } else {
            seq!['%', hex_upper((b[0] / 16) as int), hex_upper((b[0] % 16) as int)]
        }) + percent_encoded(b.skip(1)),
{
}

proof fn lemma_percent_encoded_ascii(b: Seq<u8>)
    ensures
        vstd::utf8::is_ascii_chars(percent_encoded(b)),
    decreases b.len(),
{
    if b.len() > 0 {
        lemma_percent_encoded_ascii(b.skip(1));
        lemma_percent_encoded_step(b);
        let e = percent_encoded(b);
        let rest = percent_encoded(b.skip(1));
        let head = if is_unreserved(b[0]) {
            seq![b[0] as char]
        } else {
            seq!['%', hex_upper((b[0] / 16) as int), hex_upper((b[0] % 16) as int)]
        };
        assert forall|i: int| 0 <= i < e.len() implies '\0' <= #[trigger] e[i] <= '\u{7f}' by {
            if i < head.len() {
                assert(e[i] == head[i]);
            } else {
                assert(e[i] == rest[i - head.len()]);
            }
        }
    }
}

proof fn lemma_percent_decodes_back(b: Seq<u8>)
    ensures
        percent_decoded(percent_encoded_bytes(b)) == b,
    decreases b.len(),
{
    if b.len() == 0 {
        assert(percent_encoded_bytes(b) =~= Seq::<u8>::empty());
    } else {
        lemma_percent_decodes_back(b.skip(1));
        lemma_percent_encoded_step(b);
        let rest = percent_encoded_bytes(b.skip(1));
        let x = percent_encoded_bytes(b);
        let b0 = b[0];
        if is_unreserved(b0) {
            assert(x =~= seq![b0] + rest);
            assert(x[0] == b0);
            assert(x.skip(1) =~= rest);
            assert(b0 != 37);
        } else {
            let hi = (b0 / 16) as int;
            let lo = (b0 % 16) as int;
            let hb: u8 = hex_upper(hi) as u8;
            let lb: u8 = hex_upper(lo) as u8;
            assert(x =~= seq![37u8, hb, lb] + rest);
            assert(hb == (if hi < 10 { 48 + hi } else { 55 + hi }));
            assert(lb == (if lo < 10 { 48 + lo } else { 55 + lo }));
            assert(is_hex_digit(hb) && is_hex_digit(lb));
            assert(hex_value(hb) == hi && hex_value(lb) == lo);
            assert(x.skip(3) =~= rest);
            assert(hi * 16 + lo == b0);
        }
        assert(b =~= seq![b0] + b.skip(1));
    }
}

/// Decoding undoes encoding: a path segment that `urlencoding::encode`
/// writes is read back by `urlencoding::decode` as the very same text.
pub proof fn decoding_undoes_encoding(s: Seq<char>)
    ensures
        url_decoded(url_encoded(s)) == Some(s),
{
    let b = encode_utf8(s);
    let e = percent_encoded(b);
    lemma_percent_encoded_ascii(b);
    vstd::utf8::is_ascii_chars_encode_utf8(e);
    assert(encode_utf8(e) =~= percent_encoded_bytes(b));
    lemma_percent_decodes_back(b);
    vstd::utf8::encode_utf8_valid_utf8(s);
    vstd::utf8::encode_utf8_decode_utf8(s);
}

// ---------------------------------------------------------------------------
// Which file a request names
// ---------------------------------------------------------------------------

/// The outcome of reading the `id` and `path` parameters of a PDF request.
pub enum PdfRequest {
    /// The identifier to look up.
    Identifier(String),
    /// A `path` that tries to climb out of the archive.
    InvalidPath,
    /// Neither parameter was given.
    Missing,
}

/// `id` wins over `path`; a `path` holding `..` is refused.
pub open spec fn pdf_request_matches(id: Option<String>, path: Option<String>, r: PdfRequest) -> bool {
    match id {
        Some(i) => r matches PdfRequest::Identifier(x) && x@ == i@,
        None => match path {
            Some(p) => if contains(p@, ".."@) || contains(p@, "\\.."@) {
                r is InvalidPath
            } else {
                r matches PdfRequest::Identifier(x) && x@ == p@
            },
            None => r is Missing,
        },
    }
}

fn has_dots(s: &str) -> (b: bool)
    ensures
        b == (contains(s@, ".."@) || contains(s@, "\\.."@)),
{
    let v = chars_of(s);
    let dd = chars_of("..");
    let bdd = chars_of("\\..");
    contains_in(v.as_slice(), dd.as_slice()) || contains_in(v.as_slice(), bdd.as_slice())
}

pub fn pdf_request(id: Option<String>, path: Option<String>) -> (r: PdfRequest)
    ensures
        pdf_request_matches(id, path, r),
{
    match id {
        Some(i) => PdfRequest::Identifier(i),
        None => match path {
            Some(p) => {
                if has_dots(p.as_str()) {
                    PdfRequest::InvalidPath
                } else {
                    PdfRequest::Identifier(p)
                }
            },
            None => PdfRequest::Missing,
        },
    }
}

/// How an identifier is looked up in the catalogue.
pub enum PdfLookup {
    /// The identifier climbs out of the archive.
    Rejected,
    /// A row id.
    ById(i64),
    /// A stored relative or original path.
    ByPath(String),
}

/// The identifier, percent-decoded (kept as given when that fails),
/// trimmed and without leading slashes.
pub open spec fn identifier_key(identifier: Seq<char>) -> Seq<char> {
    let decoded = match url_decoded(identifier) {
        Some(d) => d,
        None => identifier,
    };
    strip_start(trim(decoded), CharClass::Exactly('/'))
}

pub open spec fn lookup_matches(identifier: Seq<char>, r: PdfLookup) -> bool {
    if contains(identifier, ".."@) || contains(identifier, "\\.."@) {
        r is Rejected
    } else {
        let key = identifier_key(identifier);
        match parse_i64(key) {
            Some(id) => r matches PdfLookup::ById(x) && x == id,
            None => r matches PdfLookup::ByPath(p) && p@ == key,
        }
    }
}

pub fn classify_pdf_identifier(identifier: &str) -> (r: PdfLookup)
    ensures
        lookup_matches(identifier@, r),
{
    if has_dots(identifier) {
        return PdfLookup::Rejected;
    }
    let decoded = match url_decode(identifier) {
        Some(d) => d,
        None => owned(identifier),
    };
    let dv = chars_of(decoded.as_str());
    let t = trim_of(dv.as_slice());
    let key = strip_start_of(t.as_slice(), CharClass::Exactly('/'));
    match parse_i64_of(key.as_slice()) {
        Some(id) => PdfLookup::ById(id),
        None => PdfLookup::ByPath(string_of(key.as_slice())),
    }
}

/// Whether a resolved file may be served, given whether it lies under the
/// raw and the indexed roots (`None` for a root that could not be resolved):
/// under a resolved root; anywhere when neither root resolves.
pub open spec fn location_allowed(under_raw: Option<bool>, under_indexed: Option<bool>) -> bool {
    match (under_raw, under_indexed) {
        (Some(a), Some(b)) => a || b,
        (Some(a), None) => a,
        (None, Some(b)) => b,
        (None, None) => true,
    }
}

pub fn canonical_allowed(under_raw: Option<bool>, under_indexed: Option<bool>) -> (b: bool)
    ensures
        b == location_allowed(under_raw, under_indexed),
{
    match (under_raw, under_indexed) {
        (Some(a), Some(b)) => a || b,
        (Some(a), None) => a,
        (None, Some(b)) => b,
        (None, None) => true,
    }
}

/// A file extension names a PDF when, lower-cased, it reads `pdf`.
pub fn is_pdf_extension(ext: Option<&str>) -> (b: bool)
    ensures
        b == match ext {
            Some(e) => lowercase(e@) == "pdf"@,
            None => false,
        },
{
    match ext {
        Some(e) => {
            let v = chars_of(e);
            let l = to_lowercase(v.as_slice());
            let pdf = chars_of("pdf");
            same(l.as_slice(), pdf.as_slice())
        },
        None => false,
    }
}

// ---------------------------------------------------------------------------
// Answers
// ---------------------------------------------------------------------------

/// The storage URL a stored file is redirected to: the base without
/// trailing slashes, then the percent-encoded path components joined by `/`.
pub open spec fn redirect_url(base: Seq<char>, segments: Seq<Seq<char>>) -> Seq<char> {
    strip_end(base, CharClass::Exactly('/')) + "/"@ + join(
        segments.map_values(|c: Seq<char>| url_encoded(c)),
        "/"@,
    )
}

pub fn storage_redirect_url(base: &str, segments: &Vec<String>) -> (r: String)
    ensures
        r@ == redirect_url(base@, segments@.map_values(|c: String| c@)),
{
    let bv = chars_of(base);
    let mut out = strip_end_of(bv.as_slice(), CharClass::Exactly('/'));
    let slash = chars_of("/");
    append(&mut out, slash.as_slice());
    let mut enc: Vec<Vec<char>> = Vec::new();
    let mut i: usize = 0;
    while i < segments.len()
        invariant
            i <= segments@.len(),
            views(enc@) =~= segments@.map_values(|c: String| c@).take(i as int).map_values(
                |c: Seq<char>| url_encoded(c),
            ),
        decreases segments@.len() - i,
    {
        let e = url_encode(segments[i].as_str());
        let ev = chars_of(e.as_str());
        let ghost before = views(enc@);
        enc.push(ev);
        assert(views(enc@) =~= before.push(ev@));
        i = i + 1;
    }
    assert(segments@.map_values(|c: String| c@).take(segments@.len() as int) =~= segments@.map_values(
        |c: String| c@,
    ));
    let joined = join_words(&enc, slash.as_slice());
    append(&mut out, joined.as_slice());
    string_of(out.as_slice())
}

/// The `Content-Disposition` value that shows a PDF inline.
pub fn inline_disposition(filename: &str) -> (r: String)
    ensures
        r@ == "inline; filename=\""@ + filename@ + "\""@,
{
    let mut out = chars_of("inline; filename=\"");
    let f = chars_of(filename);
    append(&mut out, f.as_slice());
    let q = chars_of("\"");
    append(&mut out, q.as_slice());
    string_of(out.as_slice())
}

/// The most files one batch download takes.
pub const MAX_BATCH: usize = 50;

/// A batch download names between one and fifty files.
pub fn batch_size_ok(n: usize) -> (b: bool)
    ensures
        b == (1 <= n <= MAX_BATCH),
{
    1 <= n && n <= MAX_BATCH
}

/// Seconds that computed facets stay fresh.
pub const FACET_TTL_SECS: u64 = 300;

/// Cached facets are served while younger than five minutes.
pub fn facets_fresh(age_secs: u64) -> (b: bool)
    ensures
        b == (age_secs < FACET_TTL_SECS),
{
    age_secs < FACET_TTL_SECS
}

/// The year facet query: years from 1990 to the year after `current_year`.
pub open spec fn year_facet_sql(current_year: i32) -> Seq<char> {
    "SELECT year, count(*) FROM papers WHERE CAST(year AS INTEGER) BETWEEN 1990 AND "@ + int_text(
        current_year + 1,
    ) + " GROUP BY year ORDER BY year DESC"@
}

pub fn year_facet_sql_of(current_year: i32) -> (r: String)
    ensures
        r@ == year_facet_sql(current_year),
{
    let mut out = chars_of(
        "SELECT year, count(*) FROM papers WHERE CAST(year AS INTEGER) BETWEEN 1990 AND ",
    );
    let y = i64_text(current_year as i64 + 1);
    append(&mut out, y.as_slice());
    let tail = chars_of(" GROUP BY year ORDER BY year DESC");
    append(&mut out, tail.as_slice());
    string_of(out.as_slice())
}

/// The health answer.
pub struct HealthReport {
    pub status: String,
    pub database: String,
    pub total_papers: usize,
}

/// `ok`/`connected` with the paper count when the database answers,
/// `degraded`/`connection_failed` with no papers when it does not.
pub fn health_report(total: Option<usize>) -> (r: HealthReport)
    ensures
        match total {
            Some(n) => r.status@ == "ok"@ && r.database@ == "connected"@ && r.total_papers == n,
            None => r.status@ == "degraded"@ && r.database@ == "connection_failed"@ && r.total_papers
                == 0,
        },
{
    match total {
        Some(n) => HealthReport {
            status: owned("ok"),
            database: owned("connected"),
            total_papers: n,
        },
        None => HealthReport {
            status: owned("degraded"),
            database: owned("connection_failed"),
            total_papers: 0,
        },
    }
}

} // verus!
