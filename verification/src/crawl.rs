//! The repository crawler's decisions: names on disk, handles in links,
//! what a downloaded body must look like, and content hashes.
use vstd::prelude::*;
use scraper::{ElementRef, Html, Selector};
use sha2::Digest;
use crate::catalog::{sanitize_file_name, sanitized_file_name, take_chars};
use crate::display::owned;
use crate::metadata::{before_char, before_char_of};
use crate::numbers::{decimal, decimal_of};
use crate::serving::{url_decode, url_decoded};
use crate::patterns::opt_view;
use crate::text::{
    append, byte_len, occurs_at, byte_len_capped, chars_of, contains, contains_in, find, find_in,
    strip_end, strip_end_of, string_of, subslice, trim, trim_of, CharClass,
};

verus! {

// ---------------------------------------------------------------------------
// Single-component paths (`std::path::Path`)
// ---------------------------------------------------------------------------

/// Index of the last `c` in `s`, or -1.
pub open spec fn last_of(s: Seq<char>, c: char) -> int
    decreases s.len(),
{
    if s.len() == 0 {
        -1
    } else if s.last() == c {
        s.len() - 1
    } else {
        last_of(s.drop_last(), c)
    }
}

pub open spec fn has_no_slash(s: Seq<char>) -> bool {
    forall|i: int| 0 <= i < s.len() ==> s[i] != '/'
}

/// `Path::file_name` of a path without `/`: the path itself, except that
/// the empty path, `.` and `..` have none.
pub open spec fn single_file_name(n: Seq<char>) -> Option<Seq<char>> {
    if n.len() == 0 || n == "."@ || n == ".."@ {
        None
    } else {
        Some(n)
    }
}

/// `Path::file_stem` of a path without `/`: the whole file name when it has
/// no `.` or only a leading one, else the part before the final `.`.
pub open spec fn file_stem(n: Seq<char>) -> Option<Seq<char>> {
    match single_file_name(n) {
        None => None,
        Some(f) => if last_of(f, '.') <= 0 {
            Some(f)
        } else {
            Some(f.take(last_of(f, '.')))
        },
    }
}

/// `Path::extension` of a path without `/`: none when the file name has no
/// `.` or only a leading one, else the part after the final `.`.
pub open spec fn file_extension(n: Seq<char>) -> Option<Seq<char>> {
    match single_file_name(n) {
        None => None,
        Some(f) => if last_of(f, '.') <= 0 {
            None
        } else {
            Some(f.skip(last_of(f, '.') + 1))
        },
    }
}

/// The index of the last `c` in `s`, if any.
fn last_index_of(s: &[char], c: char) -> (r: Option<usize>)
    ensures
        r matches Some(i) ==> i == last_of(s@, c) && i < s@.len(),
        r is None ==> last_of(s@, c) == -1,
{
    let mut j: usize = s.len();
    assert(s@.take(j as int) =~= s@);
    while j > 0
        invariant
            j <= s@.len(),
            last_of(s@, c) == last_of(s@.take(j as int), c),
        decreases j,
    {
        assert(s@.take(j as int).drop_last() =~= s@.take(j - 1));
        if s[j - 1] == c {
            return Some(j - 1);
        }
        j = j - 1;
    }
    None
}

/// Whether a name without `/` has a file name (is not empty, `.` or `..`).
fn has_file_name(name: &[char]) -> (b: bool)
    ensures
        b == single_file_name(name@) is Some,
{
    let dot = chars_of(".");
    let dots = chars_of("..");
    !(name.len() == 0 || crate::text::same(name, dot.as_slice()) || crate::text::same(
        name,
        dots.as_slice(),
    ))
}

/// `Path::file_stem` of a name without `/`.
fn path_file_stem(name: &str) -> (r: Option<String>)
    requires
        has_no_slash(name@),
    ensures
        r matches Some(s) ==> file_stem(name@) == Some(s@),
        r is None ==> file_stem(name@) is None,
{
    let n = chars_of(name);
    if !has_file_name(n.as_slice()) {
        return None;
    }
    match last_index_of(n.as_slice(), '.') {
        Some(k) => if k == 0 {
            Some(string_of(n.as_slice()))
        } else {
            let t = subslice(n.as_slice(), 0, k);
            assert(t@ =~= n@.take(k as int));
            Some(string_of(t.as_slice()))
        },
        None => Some(string_of(n.as_slice())),
    }
}

/// `Path::extension` of a name without `/`.
fn path_extension(name: &str) -> (r: Option<String>)
    requires
        has_no_slash(name@),
    ensures
        r matches Some(s) ==> file_extension(name@) == Some(s@),
        r is None ==> file_extension(name@) is None,
{
    let n = chars_of(name);
    if !has_file_name(n.as_slice()) {
        return None;
    }
    match last_index_of(n.as_slice(), '.') {
        Some(k) => if k == 0 {
            None
        } else {
            let len = n.len();
            let t = subslice(n.as_slice(), k + 1, len);
            assert(t@ =~= n@.skip(k + 1));
            Some(string_of(t.as_slice()))
        },
        None => None,
    }
}

proof fn lemma_no_slash_strip_start(s: Seq<char>, k: CharClass)
    requires
        has_no_slash(s),
    ensures
        has_no_slash(crate::text::strip_start(s, k)),
{
    crate::text::lemma_leading(s, k);
    let t = crate::text::strip_start(s, k);
    assert forall|i: int| 0 <= i < t.len() implies t[i] != '/' by {
        assert(t[i] == s[i + crate::text::leading(s, k)]);
    }
}

proof fn lemma_no_slash_strip_end(s: Seq<char>, k: CharClass)
    requires
        has_no_slash(s),
    ensures
        has_no_slash(strip_end(s, k)),
{
    crate::text::lemma_trailing(s, k);
    let t = strip_end(s, k);
    assert forall|i: int| 0 <= i < t.len() implies t[i] != '/' by {
        assert(t[i] == s[i]);
    }
}

// ---------------------------------------------------------------------------
// Names on disk
// ---------------------------------------------------------------------------

/// The longest stem a saved name keeps: 120 characters less room for the
/// extension (its UTF-8 length and the dot), never below zero.
pub open spec fn stem_room(ext: Seq<char>) -> int {
    if ext.len() == 0 {
        120
    } else if byte_len(ext) + 1 >= 120 {
        0
    } else {
        119 - byte_len(ext)
    }
}

/// A repository title or file name made safe to save: trimmed, sanitized,
/// without trailing dots; the stem cut so the name stays near 120
/// characters; `unknown` when nothing is left.
pub open spec fn saved_name(s: Seq<char>) -> Seq<char> {
    let clean = trim(strip_end(sanitized_file_name(trim(s)), CharClass::Exactly('.')));
    if clean.len() == 0 {
        "unknown"@
    } else {
        let ext = match file_extension(clean) {
            Some(e) => e,
            None => seq![],
        };
        let stem = match file_stem(clean) {
            Some(t) => t,
            None => clean,
        };
        let room = stem_room(ext);
        let cut = if stem.len() > room {
            stem.take(room)
        } else {
            stem
        };
        if ext.len() == 0 {
            cut
        } else {
            cut + "."@ + ext
        }
    }
}

/// The name a repository title or file name is saved under. It is never
/// empty and holds no `/`: it always names one entry inside its folder.
pub fn slugify(s: &str) -> (r: String)
    ensures
        r@ == saved_name(s@),
        has_no_slash(r@),
        r@.len() > 0,
{
    let v = chars_of(s);
    let t = trim_of(v.as_slice());
    let ts = string_of(t.as_slice());
    let sanitized = sanitize_file_name(ts.as_str());
    let sv = chars_of(sanitized.as_str());
    proof {
        assert forall|i: int| 0 <= i < sv@.len() implies sv@[i] != '/' by {
            assert(!crate::catalog::is_file_name_illegal(sanitized@[i]));
        }
        lemma_saved_name_is_one_component(s@);
    }
    let no_dots = strip_end_of(sv.as_slice(), CharClass::Exactly('.'));
    let clean = trim_of(no_dots.as_slice());
    if clean.len() == 0 {
        let u = owned("unknown");
        return u;
    }
    proof {
        lemma_no_slash_strip_end(sv@, CharClass::Exactly('.'));
        lemma_no_slash_strip_start(no_dots@, CharClass::Whitespace);
        lemma_no_slash_strip_end(
            crate::text::strip_start(no_dots@, CharClass::Whitespace),
            CharClass::Whitespace,
        );
    }
    let cs = string_of(clean.as_slice());
    let ext = match path_extension(cs.as_str()) {
        Some(e) => chars_of(e.as_str()),
        None => Vec::new(),
    };
    let stem = match path_file_stem(cs.as_str()) {
        Some(t) => chars_of(t.as_str()),
        None => clean,
    };
    let room: usize = if ext.len() == 0 {
        120
    } else {
        let b = byte_len_capped(ext.as_slice(), 120);
        if b + 1 >= 120 {
            0
        } else {
            119 - b
        }
    };
    let mut out = take_chars(stem.as_slice(), room);
    if ext.len() > 0 {
        let dot = chars_of(".");
        append(&mut out, dot.as_slice());
        append(&mut out, ext.as_slice());
    }
    string_of(out.as_slice())
}

proof fn lemma_no_slash_take_skip(s: Seq<char>, a: int, b: int)
    requires
        has_no_slash(s),
        0 <= a <= b <= s.len(),
    ensures
        has_no_slash(s.subrange(a, b)),
        has_no_slash(s.take(b)),
        has_no_slash(s.skip(a)),
{
    assert forall|i: int| 0 <= i < s.subrange(a, b).len() implies s.subrange(a, b)[i] != '/' by {
        assert(s.subrange(a, b)[i] == s[a + i]);
    }
    assert forall|i: int| 0 <= i < s.take(b).len() implies s.take(b)[i] != '/' by {
        assert(s.take(b)[i] == s[i]);
    }
    assert forall|i: int| 0 <= i < s.skip(a).len() implies s.skip(a)[i] != '/' by {
        assert(s.skip(a)[i] == s[a + i]);
    }
}

/// A saved name is one non-empty path component once the sanitized name
/// holds no `/`.
proof fn lemma_saved_name_is_one_component(s: Seq<char>)
    requires
        has_no_slash(sanitized_file_name(trim(s))),
    ensures
        has_no_slash(saved_name(s)),
        saved_name(s).len() > 0,
{
    let sv = sanitized_file_name(trim(s));
    let no_dots = strip_end(sv, CharClass::Exactly('.'));
    lemma_no_slash_strip_end(sv, CharClass::Exactly('.'));
    lemma_no_slash_strip_start(no_dots, CharClass::Whitespace);
    lemma_no_slash_strip_end(crate::text::strip_start(no_dots, CharClass::Whitespace), CharClass::Whitespace);
    let clean = trim(no_dots);
    reveal_strlit("unknown");
    reveal_strlit(".");
    if clean.len() > 0 {
        lemma_last_of(clean, '.');
        let k = last_of(clean, '.');
        let ext = match file_extension(clean) {
            Some(e) => e,
            None => seq![],
        };
        let stem = match file_stem(clean) {
            Some(t) => t,
            None => clean,
        };
        if single_file_name(clean) is Some && k > 0 {
            lemma_no_slash_take_skip(clean, k + 1, clean.len() as int);
            lemma_no_slash_take_skip(clean, 0, k);
            assert(ext == clean.skip(k + 1));
            assert(stem == clean.take(k));
        } else {
            assert(ext.len() == 0);
            assert(stem == clean);
        }
        assert(has_no_slash(ext));
        assert(has_no_slash(stem));
        let room = stem_room(ext);
        let cut = if stem.len() > room {
            stem.take(room)
        } else {
            stem
        };
        if stem.len() > room {
            lemma_no_slash_take_skip(stem, 0, room);
        }
        assert(has_no_slash(cut));
        if ext.len() > 0 {
            let r = cut + "."@ + ext;
            assert forall|i: int| 0 <= i < r.len() implies r[i] != '/' by {
                if i < cut.len() {
                    assert(r[i] == cut[i]);
                } else if i == cut.len() {
                    assert(r[i] == '.');
                } else {
                    assert(r[i] == ext[i - cut.len() - 1]);
                }
            }
        } else {
            assert(stem.len() > 0) by {
                if single_file_name(clean) is Some && k > 0 {
                    assert(stem.len() == k);
                }
            }
        }
    }
}

// ---------------------------------------------------------------------------
// Links and bodies
// ---------------------------------------------------------------------------

/// What follows `/xmlui/handle/` in a link, if it holds that marker.
pub open spec fn handle_in(href: Seq<char>) -> Option<Seq<char>> {
    match find(href, "/xmlui/handle/"@) {
        Some(p) => Some(href.skip(p + 14)),
        None => None,
    }
}

pub fn extract_handle(href: &str) -> (r: Option<String>)
    ensures
        r matches Some(h) ==> handle_in(href@) == Some(h@),
        r is None ==> handle_in(href@) is None,
{
    let v = chars_of(href);
    let marker = chars_of("/xmlui/handle/");
    proof {
        reveal_strlit("/xmlui/handle/");
        crate::text::lemma_find(v@, marker@);
        assert(marker@.len() == 14);
    }
    match find_in(v.as_slice(), marker.as_slice()) {
        Some(p) => {
            let n = v.len();
            assert(occurs_at(v@, marker@, p as int));
            let rest = subslice(v.as_slice(), p + 14, n);
            assert(rest@ =~= v@.skip(p + 14));
            Some(string_of(rest.as_slice()))
        },
        None => None,
    }
}

/// The bytes every PDF file starts with: `%PDF-`.
pub open spec fn pdf_magic() -> Seq<u8> {
    seq![37u8, 80u8, 68u8, 70u8, 45u8]
}

/// A body is a PDF when it starts with `%PDF-`.
pub open spec fn looks_like_pdf(buf: Seq<u8>) -> bool {
    buf.len() >= 5 && buf.take(5) == pdf_magic()
}

pub fn is_valid_pdf(buf: &[u8]) -> (b: bool)
    ensures
        b == looks_like_pdf(buf@),
{
    if buf.len() < 5 {
        return false;
    }
    let ok = buf[0] == 37 && buf[1] == 80 && buf[2] == 68 && buf[3] == 70 && buf[4] == 45;
    assert(ok ==> buf@.take(5) =~= pdf_magic());
    assert(buf@.take(5) == pdf_magic() ==> buf@.take(5)[0] == 37u8 && buf@.take(5)[4] == 45u8);
    ok
}

/// A `Content-Type` lets a body through when it mentions `pdf` or
/// `octet-stream`, or when the server sent none that reads as text.
pub open spec fn content_type_allows(ct: Option<Seq<char>>) -> bool {
    match ct {
        Some(t) => contains(t, "pdf"@) || contains(t, "octet-stream"@),
        None => true,
    }
}

pub fn content_type_allows_pdf(ct: Option<&str>) -> (b: bool)
    ensures
        b == content_type_allows(match ct {
            Some(t) => Some(t@),
            None => None,
        }),
{
    match ct {
        Some(t) => {
            let v = chars_of(t);
            let pdf = chars_of("pdf");
            let octet = chars_of("octet-stream");
            contains_in(v.as_slice(), pdf.as_slice()) || contains_in(
                v.as_slice(),
                octet.as_slice(),
            )
        },
        None => true,
    }
}

// ---------------------------------------------------------------------------
// Content hashes
// ---------------------------------------------------------------------------

/// The SHA-256 digest of some bytes, named for its result.
pub uninterp spec fn sha256(b: Seq<u8>) -> Seq<u8>;

/// Calls `Sha256::digest`; the result is named `sha256`, and a SHA-256
/// digest is 32 bytes long.
#[verifier::external_body]
fn sha256_digest(buf: &[u8]) -> (r: Vec<u8>)
    ensures
        r@ == sha256(buf@),
        r@.len() == 32,
{
    sha2::Sha256::digest(buf).to_vec()
}

/// The lower-case hexadecimal digit for a value below sixteen.
pub open spec fn hex_digit(d: int) -> char {
    if d < 10 {
        ((48 + d) as u8) as char
    } else {
        ((87 + d) as u8) as char
    }
}

/// Bytes written as lower-case hexadecimal, two digits per byte.
pub open spec fn lower_hex(b: Seq<u8>) -> Seq<char>
    decreases b.len(),
{
    if b.len() == 0 {
        seq![]
    } else {
        lower_hex(b.drop_last()) + seq![
            hex_digit((b.last() / 16) as int),
            hex_digit((b.last() % 16) as int),
        ]
    }
}

pub proof fn lemma_lower_hex_len(b: Seq<u8>)
    ensures
        lower_hex(b).len() == 2 * b.len(),
    decreases b.len(),
{
    if b.len() > 0 {
        lemma_lower_hex_len(b.drop_last());
    }
}

fn hex_char(d: u8) -> (c: char)
    requires
        d < 16,
    ensures
        c == hex_digit(d as int),
{
    if d < 10 {
        (48u8 + d) as char
    } else {
        (87u8 + d) as char
    }
}

pub fn to_lower_hex(b: &[u8]) -> (r: String)
    ensures
        r@ == lower_hex(b@),
{
    let mut out: Vec<char> = Vec::new();
    let mut i: usize = 0;
    while i < b.len()
        invariant
            i <= b@.len(),
            out@ == lower_hex(b@.take(i as int)),
        decreases b@.len() - i,
    {
        let x = b[i];
        out.push(hex_char(x / 16));
        out.push(hex_char(x % 16));
        assert(b@.take(i + 1).drop_last() =~= b@.take(i as int));
        i = i + 1;
    }
    assert(b@.take(b@.len() as int) =~= b@);
    string_of(out.as_slice())
}

/// The SHA-256 of a body as 64 lower-case hexadecimal digits, the key under
/// which duplicate downloads are found.
pub fn sha256_of(buf: &[u8]) -> (r: String)
    ensures
        r@ == lower_hex(sha256(buf@)),
        r@.len() == 64,
{
    let d = sha256_digest(buf);
    proof {
        lemma_lower_hex_len(d@);
    }
    to_lower_hex(d.as_slice())
}

// ---------------------------------------------------------------------------
// Fetching with retries
// ---------------------------------------------------------------------------

/// What came back from one request.
pub enum Reply {
    /// An HTTP status code.
    Status(u16),
    /// The request failed before any status arrived.
    Failed,
}

/// What the fetching loop does after a reply.
pub enum FetchAction {
    /// Hand over the body of this reply.
    Deliver,
    /// Wait `millis` milliseconds, then try again; `slow_down` when the
    /// server asked the crawler to back off.
    Retry { millis: u64, slow_down: bool },
    /// Give up on this address.
    Abandon,
}

/// The server asks for fewer requests: 429 or 503.
pub open spec fn is_throttle(code: u16) -> bool {
    code == 429 || code == 503
}

/// The address will not answer: 404 or 403.
pub open spec fn is_gone(code: u16) -> bool {
    code == 404 || code == 403
}

/// A wait that starts at `base` and doubles with every earlier retry.
pub open spec fn doubled(base: nat, n: nat) -> nat
    decreases n,
{
    if n == 0 {
        base
    } else {
        2 * doubled(base, (n - 1) as nat)
    }
}

/// Requests made for a page before giving up.
pub const PAGE_ATTEMPTS: u32 = 7;

/// Milliseconds waited after the first failed page request.
pub const PAGE_FIRST_WAIT_MS: u64 = 800;

/// Requests made for a file before giving up.
pub const FILE_ATTEMPTS: u32 = 5;

/// The retry state of one page request: how many requests were made and
/// how long the next wait is.
pub struct PageFetch {
    attempt: u32,
    wait_ms: u64,
}

impl PageFetch {
    pub closed spec fn attempts(self) -> nat {
        self.attempt as nat
    }

    pub closed spec fn wait(self) -> nat {
        self.wait_ms as nat
    }

    /// At most seven requests, and the wait doubles from 800 ms with each.
    pub open spec fn wf(self) -> bool {
        &&& self.attempts() <= PAGE_ATTEMPTS
        &&& self.wait() == doubled(PAGE_FIRST_WAIT_MS as nat, self.attempts())
    }

    pub fn new() -> (f: PageFetch)
        ensures
            f.wf(),
            f.attempts() == 0,
    {
        PageFetch { attempt: 0, wait_ms: PAGE_FIRST_WAIT_MS }
    }

    /// Whether another request may be made.
    pub fn may_request(&self) -> (b: bool)
        ensures
            b == (self.attempts() < PAGE_ATTEMPTS),
    {
        self.attempt < PAGE_ATTEMPTS
    }

    /// The decision after one reply: 200 delivers; 429 and 503 wait and slow
    /// the crawler down; 404 and 403 give up; anything else, a failed
    /// request included, waits and retries. Every wait doubles the next.
    pub fn reply(&mut self, r: Reply) -> (a: FetchAction)
        requires
            old(self).wf(),
            old(self).attempts() < PAGE_ATTEMPTS,
        ensures
            final(self).wf(),
            match r {
                Reply::Status(code) => if code == 200 {
                    a is Deliver && *final(self) == *old(self)
                } else if is_gone(code) {
                    a is Abandon && *final(self) == *old(self)
                } else {
                    a == (FetchAction::Retry { millis: old(self).wait() as u64, slow_down: is_throttle(code) })
                        && final(self).attempts() == old(self).attempts() + 1
                },
                Reply::Failed => a == (FetchAction::Retry { millis: old(self).wait() as u64, slow_down: false })
                    && final(self).attempts() == old(self).attempts() + 1,
            },
    {
        let slow_down = match r {
            Reply::Status(code) => {
                if code == 200 {
                    return FetchAction::Deliver;
                }
                if code == 404 || code == 403 {
                    return FetchAction::Abandon;
                }
                code == 429 || code == 503
            },
            Reply::Failed => false,
        };
        let millis = self.wait_ms;
        proof {
            lemma_page_wait_bound(self.attempt as nat);
        }
        self.attempt = self.attempt + 1;
        self.wait_ms = self.wait_ms * 2;
        FetchAction::Retry { millis, slow_down }
    }
}

proof fn lemma_page_wait_bound(n: nat)
    requires
        n < PAGE_ATTEMPTS,
    ensures
        doubled(PAGE_FIRST_WAIT_MS as nat, n) <= 51200,
{
    reveal_with_fuel(doubled, 7);
}

/// The wait after the `n`-th failed file request: 2^n seconds.
pub open spec fn file_wait(n: nat) -> nat {
    doubled(1000, n)
}

/// The retry state of one file request.
pub struct FileFetch {
    attempt: u32,
}

impl FileFetch {
    pub closed spec fn attempts(self) -> nat {
        self.attempt as nat
    }

    pub open spec fn wf(self) -> bool {
        self.attempts() <= FILE_ATTEMPTS
    }

    pub fn new() -> (f: FileFetch)
        ensures
            f.wf(),
            f.attempts() == 0,
    {
        FileFetch { attempt: 0 }
    }

    pub fn may_request(&self) -> (b: bool)
        ensures
            b == (self.attempts() < FILE_ATTEMPTS),
    {
        self.attempt < FILE_ATTEMPTS
    }

    /// The decision after one reply: any 2xx delivers; 429 and 503 wait and
    /// slow the crawler down; 404 and 403 give up; anything else waits and
    /// retries. The `n`-th retry waits 2^n seconds.
    pub fn reply(&mut self, r: Reply) -> (a: FetchAction)
        requires
            old(self).wf(),
            old(self).attempts() < FILE_ATTEMPTS,
        ensures
            final(self).wf(),
            match r {
                Reply::Status(code) => if 200 <= code <= 299 {
                    a is Deliver && *final(self) == *old(self)
                } else if is_gone(code) {
                    a is Abandon && *final(self) == *old(self)
                } else {
                    a == (FetchAction::Retry { millis: file_wait(old(self).attempts()) as u64, slow_down: is_throttle(code) })
                        && final(self).attempts() == old(self).attempts() + 1
                },
                Reply::Failed => a == (FetchAction::Retry { millis: file_wait(old(self).attempts()) as u64, slow_down: false })
                    && final(self).attempts() == old(self).attempts() + 1,
            },
    {
        let slow_down = match r {
            Reply::Status(code) => {
                if 200 <= code && code <= 299 {
                    return FetchAction::Deliver;
                }
                if code == 404 || code == 403 {
                    return FetchAction::Abandon;
                }
                code == 429 || code == 503
            },
            Reply::Failed => false,
        };
        proof {
            reveal_with_fuel(doubled, 6);
        }
        let millis: u64 = if self.attempt == 0 {
            1000
        } else if self.attempt == 1 {
            2000
        } else if self.attempt == 2 {
            4000
        } else if self.attempt == 3 {
            8000
        } else {
            16000
        };
        self.attempt = self.attempt + 1;
        FetchAction::Retry { millis, slow_down }
    }
}

// ---------------------------------------------------------------------------
// Reading repository pages (`scraper`)
// ---------------------------------------------------------------------------

/// What `scraper` selects from an HTML document with a CSS selector: for
/// each matching element, in document order, the value of the attribute
/// `attr` and the element's text; `None` when the selector does not parse.
pub uninterp spec fn html_selection(html: Seq<char>, css: Seq<char>, attr: Seq<char>) -> Option<
    Seq<(Option<Seq<char>>, Seq<char>)>,
>;

pub open spec fn pair_view(p: (Option<String>, String)) -> (Option<Seq<char>>, Seq<char>) {
    (opt_view(p.0), p.1@)
}

/// Parses `html` with `scraper::Html::parse_document` and selects with
/// `scraper::Selector`; the result is named `html_selection`.
#[verifier::external_body]
fn select_in(html: &str, css: &str, attr: &str) -> (r: Option<Vec<(Option<String>, String)>>)
    ensures
        match r {
            Some(v) => html_selection(html@, css@, attr@) == Some(
                v@.map_values(|p: (Option<String>, String)| pair_view(p)),
            ),
            None => html_selection(html@, css@, attr@) is None,
        },
{
    let selector = match Selector::parse(css) {
        Ok(s) => s,
        Err(_) => return None,
    };
    let doc = Html::parse_document(html);
    Some(doc.select(&selector).map(|e| (e.value().attr(attr).map(String::from), e.text().collect::<String>())).collect())
}

/// What `scraper` selects below each element that `outer` matches: the
/// attribute `first_attr` of the first element inside it that `first`
/// matches, and `second_attr` of the first that `second` matches; `None`
/// when a selector does not parse.
pub uninterp spec fn html_nested_selection(
    html: Seq<char>,
    outer: Seq<char>,
    first: Seq<char>,
    first_attr: Seq<char>,
    second: Seq<char>,
    second_attr: Seq<char>,
) -> Option<Seq<(Option<Seq<char>>, Option<Seq<char>>)>>;

pub open spec fn opt_pair_view(p: (Option<String>, Option<String>)) -> (Option<Seq<char>>, Option<Seq<char>>) {
    (opt_view(p.0), opt_view(p.1))
}

/// Parses `html` with `scraper::Html::parse_document` and selects inside
/// each `outer` match with `scraper::ElementRef::select`; the result is
/// named `html_nested_selection`.
#[verifier::external_body]
fn select_within(html: &str, outer: &str, first: (&str, &str), second: (&str, &str)) -> (r: Option<
    Vec<(Option<String>, Option<String>)>,
>)
    ensures
        match r {
            Some(v) => html_nested_selection(html@, outer@, first.0@, first.1@, second.0@, second.1@)
                == Some(v@.map_values(|p: (Option<String>, Option<String>)| opt_pair_view(p))),
            None => html_nested_selection(html@, outer@, first.0@, first.1@, second.0@, second.1@) is None,
        },
{
    let (o, a, b) = match (Selector::parse(outer), Selector::parse(first.0), Selector::parse(second.0)) {
        (Ok(o), Ok(a), Ok(b)) => (o, a, b),
        _ => return None,
    };
    let pick = |w: ElementRef, s: &Selector, n: &str| w.select(s).next().and_then(|e| e.value().attr(n)).map(String::from);
    Some(Html::parse_document(html).select(&o).map(|w| (pick(w, &a, first.1), pick(w, &b, second.1))).collect())
}

/// The repository this crawler reads.
pub const BASE_URL: &'static str = "http://dspace.amritanet.edu:8080";

/// The community that holds the exam papers.
pub const ROOT_HANDLE: &'static str = "123456789/16";

pub const PAGE_TITLE_CSS: &'static str = "h1.ds-div-head, h1.pagetitle";

pub const COMMUNITY_LINK_CSS: &'static str = "li.ds-artifact-item.community a[href]";

pub const COLLECTION_LINK_CSS: &'static str = "li.ds-artifact-item.collection a[href]";

pub const ITEM_LINK_CSS: &'static str = "div.artifact-title a[href]";

pub const NEXT_PAGE_CSS: &'static str = "a[rel='next']";

pub const FILE_WRAPPER_CSS: &'static str = "div.file-wrapper";

pub const FILE_LINK_CSS: &'static str = "div.file-link a";

pub const FILE_NAME_CSS: &'static str = "div.file-metadata span[title]";

/// The elements a selection found, none when the selector did not parse.
pub open spec fn found(sel: Option<Seq<(Option<Seq<char>>, Seq<char>)>>) -> Seq<
    (Option<Seq<char>>, Seq<char>),
> {
    match sel {
        Some(s) => s,
        None => seq![],
    }
}

fn select_or_none(html: &str, css: &str, attr: &str) -> (r: Vec<(Option<String>, String)>)
    ensures
        r@.map_values(|p: (Option<String>, String)| pair_view(p)) == found(
            html_selection(html@, css@, attr@),
        ),
{
    match select_in(html, css, attr) {
        Some(v) => v,
        None => {
            let v: Vec<(Option<String>, String)> = Vec::new();
            assert(v@.map_values(|p: (Option<String>, String)| pair_view(p)) =~= seq![]);
            v
        },
    }
}

/// A community page: its title, the links to its sub-communities and the
/// links (with their text) to its collections.
pub struct CommunityPage {
    pub title: Option<String>,
    pub communities: Vec<Option<String>>,
    pub collections: Vec<(Option<String>, String)>,
}

pub open spec fn opt_views(v: Seq<Option<String>>) -> Seq<Option<Seq<char>>> {
    v.map_values(|o: Option<String>| opt_view(o))
}

pub open spec fn pair_views(v: Seq<(Option<String>, String)>) -> Seq<(Option<Seq<char>>, Seq<char>)> {
    v.map_values(|p: (Option<String>, String)| pair_view(p))
}

/// The text of the first title element of a page.
pub open spec fn page_title(html: Seq<char>) -> Option<Seq<char>> {
    let t = found(html_selection(html, PAGE_TITLE_CSS@, "href"@));
    if t.len() > 0 {
        Some(t[0].1)
    } else {
        None
    }
}

pub open spec fn community_links(html: Seq<char>) -> Seq<Option<Seq<char>>> {
    found(html_selection(html, COMMUNITY_LINK_CSS@, "href"@)).map_values(
        |p: (Option<Seq<char>>, Seq<char>)| p.0,
    )
}

pub open spec fn collection_links(html: Seq<char>) -> Seq<(Option<Seq<char>>, Seq<char>)> {
    found(html_selection(html, COLLECTION_LINK_CSS@, "href"@))
}

pub fn community_page(html: &str) -> (p: CommunityPage)
    ensures
        opt_view(p.title) == page_title(html@),
        opt_views(p.communities@) == community_links(html@),
        pair_views(p.collections@) == collection_links(html@),
{
    let titles = select_or_none(html, PAGE_TITLE_CSS, "href");
    let title = if titles.len() > 0 {
        Some(titles[0].1.clone())
    } else {
        None
    };
    let subs = select_or_none(html, COMMUNITY_LINK_CSS, "href");
    let mut communities: Vec<Option<String>> = Vec::new();
    let mut i: usize = 0;
    while i < subs.len()
        invariant
            i <= subs@.len(),
            communities@.len() == i,
            forall|j: int| 0 <= j < i ==> opt_view(#[trigger] communities@[j]) == opt_view(subs@[j].0),
        decreases subs@.len() - i,
    {
        let h = subs[i].0.clone();
        communities.push(h);
        i = i + 1;
    }
    proof {
        let lhs = opt_views(communities@);
        let rhs = pair_views(subs@).map_values(|p: (Option<Seq<char>>, Seq<char>)| p.0);
        assert forall|j: int| 0 <= j < lhs.len() implies lhs[j] == rhs[j] by {
            assert(opt_view(communities@[j]) == opt_view(subs@[j].0));
            assert(pair_views(subs@)[j] == pair_view(subs@[j]));
        }
        assert(lhs =~= rhs);
    }
    let collections = select_or_none(html, COLLECTION_LINK_CSS, "href");
    CommunityPage { title, communities, collections }
}

// ---------------------------------------------------------------------------
// Discovering collections
// ---------------------------------------------------------------------------

pub open spec fn strs(v: Seq<String>) -> Seq<Seq<char>> {
    v.map_values(|s: String| s@)
}

/// A repository handle and the folders its files are saved under.
pub struct Entry {
    pub handle: String,
    pub path: Vec<String>,
}

impl View for Entry {
    type V = (Seq<char>, Seq<Seq<char>>);

    open spec fn view(&self) -> (Seq<char>, Seq<Seq<char>>) {
        (self.handle@, strs(self.path@))
    }
}

pub open spec fn entries(v: Seq<Entry>) -> Seq<(Seq<char>, Seq<Seq<char>>)> {
    v.map_values(|e: Entry| e@)
}

proof fn lemma_strs_push(v: Seq<String>, x: String)
    ensures
        strs(v.push(x)) == strs(v).push(x@),
{
    let a = strs(v.push(x));
    let b = strs(v).push(x@);
    assert forall|j: int| 0 <= j < a.len() implies a[j] == b[j] by {
        if j < v.len() {
            assert(v.push(x)[j] == v[j]);
        }
    }
    assert(a =~= b);
}

proof fn lemma_entries_push(v: Seq<Entry>, e: Entry)
    ensures
        entries(v.push(e)) == entries(v).push(e@),
{
    let a = entries(v.push(e));
    let b = entries(v).push(e@);
    assert forall|j: int| 0 <= j < a.len() implies a[j] == b[j] by {
        if j < v.len() {
            assert(v.push(e)[j] == v[j]);
        }
    }
    assert(a =~= b);
}

proof fn lemma_entries_remove_first(v: Seq<Entry>)
    requires
        v.len() > 0,
    ensures
        entries(v.remove(0)) == entries(v).skip(1),
        entries(v)[0] == v[0]@,
{
    let a = entries(v.remove(0));
    let b = entries(v).skip(1);
    assert forall|j: int| 0 <= j < a.len() implies a[j] == b[j] by {
        assert(v.remove(0)[j] == v[j + 1]);
    }
    assert(a =~= b);
}

fn copy_strings(v: &Vec<String>) -> (r: Vec<String>)
    ensures
        strs(r@) == strs(v@),
{
    let mut r: Vec<String> = Vec::new();
    let mut i: usize = 0;
    while i < v.len()
        invariant
            i <= v@.len(),
            r@.len() == i,
            forall|j: int| 0 <= j < i ==> (#[trigger] r@[j])@ == v@[j]@,
        decreases v@.len() - i,
    {
        let c = v[i].clone();
        r.push(c);
        i = i + 1;
    }
    proof {
        assert forall|j: int| 0 <= j < r@.len() implies strs(r@)[j] == strs(v@)[j] by {
            assert(r@[j]@ == v@[j]@);
        }
        assert(strs(r@) =~= strs(v@));
    }
    r
}

impl Entry {
    pub fn duplicate(&self) -> (r: Entry)
        ensures
            r@ == self@,
    {
        Entry { handle: self.handle.clone(), path: copy_strings(&self.path) }
    }
}

fn copy_entries(v: &Vec<Entry>) -> (r: Vec<Entry>)
    ensures
        entries(r@) == entries(v@),
{
    let mut r: Vec<Entry> = Vec::new();
    let mut i: usize = 0;
    while i < v.len()
        invariant
            i <= v@.len(),
            r@.len() == i,
            forall|j: int| 0 <= j < i ==> (#[trigger] r@[j])@ == v@[j]@,
        decreases v@.len() - i,
    {
        r.push(v[i].duplicate());
        i = i + 1;
    }
    proof {
        assert forall|j: int| 0 <= j < r@.len() implies entries(r@)[j] == entries(v@)[j] by {
            assert(r@[j]@ == v@[j]@);
        }
        assert(entries(r@) =~= entries(v@));
    }
    r
}

fn knows(v: &Vec<String>, h: &String) -> (b: bool)
    ensures
        b == strs(v@).contains(h@),
{
    let mut i: usize = 0;
    while i < v.len()
        invariant
            i <= v@.len(),
            forall|j: int| 0 <= j < i ==> strs(v@)[j] != h@,
        decreases v@.len() - i,
    {
        if v[i] == *h {
            assert(strs(v@)[i as int] == h@);
            return true;
        }
        i = i + 1;
    }
    false
}

/// The handle a link points to, if it is a repository handle link.
pub open spec fn link_handle(href: Option<Seq<char>>) -> Option<Seq<char>> {
    match href {
        Some(h) => handle_in(h),
        None => None,
    }
}

fn link_handle_of(href: &Option<String>) -> (r: Option<String>)
    ensures
        opt_view(r) == link_handle(opt_view(*href)),
{
    match href {
        Some(h) => extract_handle(h.as_str()),
        None => None,
    }
}

/// The index of the first queued entry whose handle was not visited.
pub open spec fn first_unvisited(
    q: Seq<(Seq<char>, Seq<Seq<char>>)>,
    visited: Seq<Seq<char>>,
    i: int,
) -> Option<int>
    decreases q.len() - i,
{
    if i < 0 || i >= q.len() {
        None
    } else if !visited.contains(q[i].0) {
        Some(i)
    } else {
        first_unvisited(q, visited, i + 1)
    }
}

/// The folders a community's contents go under: its parent's folders and
/// its own title (its handle when the page has none), made safe to save.
pub open spec fn page_folder(from: (Seq<char>, Seq<Seq<char>>), title: Option<Seq<char>>) -> Seq<
    Seq<char>,
> {
    from.1.push(
        saved_name(
            match title {
                Some(t) => t,
                None => from.0,
            },
        ),
    )
}

/// The sub-communities a page adds to the queue: every linked handle not
/// yet visited, in page order, under the page's folders.
pub open spec fn queued(
    links: Seq<Option<Seq<char>>>,
    visited: Seq<Seq<char>>,
    folder: Seq<Seq<char>>,
) -> Seq<(Seq<char>, Seq<Seq<char>>)>
    decreases links.len(),
{
    if links.len() == 0 {
        seq![]
    } else {
        let q = queued(links.drop_last(), visited, folder);
        match link_handle(links.last()) {
            Some(h) => if visited.contains(h) {
                q
            } else {
                q.push((h, folder))
            },
            None => q,
        }
    }
}

/// The collections a page adds: each linked handle not yet visited, in
/// page order, is marked visited and saved under the page's folders and
/// its own link text.
pub open spec fn collected(
    links: Seq<(Option<Seq<char>>, Seq<char>)>,
    visited: Seq<Seq<char>>,
    found: Seq<(Seq<char>, Seq<Seq<char>>)>,
    folder: Seq<Seq<char>>,
) -> (Seq<Seq<char>>, Seq<(Seq<char>, Seq<Seq<char>>)>)
    decreases links.len(),
{
    if links.len() == 0 {
        (visited, found)
    } else {
        let (v, f) = collected(links.drop_last(), visited, found, folder);
        match link_handle(links.last().0) {
            Some(h) => if v.contains(h) {
                (v, f)
            } else {
                (v.push(h), f.push((h, folder.push(saved_name(links.last().1)))))
            },
            None => (v, f),
        }
    }
}

pub open spec fn distinct(s: Seq<Seq<char>>) -> bool {
    forall|i: int, j: int| 0 <= i < j < s.len() ==> s[i] != s[j]
}

pub open spec fn handles_of(s: Seq<(Seq<char>, Seq<Seq<char>>)>) -> Seq<Seq<char>> {
    s.map_values(|e: (Seq<char>, Seq<Seq<char>>)| e.0)
}

/// The walk over the community tree: entries still to visit, handles
/// visited, and the collections found.
pub struct Discovery {
    queue: Vec<Entry>,
    visited: Vec<String>,
    found: Vec<Entry>,
}

pub ghost struct DiscoveryView {
    pub queue: Seq<(Seq<char>, Seq<Seq<char>>)>,
    pub visited: Seq<Seq<char>>,
    pub found: Seq<(Seq<char>, Seq<Seq<char>>)>,
}

impl View for Discovery {
    type V = DiscoveryView;

    closed spec fn view(&self) -> DiscoveryView {
        DiscoveryView {
            queue: entries(self.queue@),
            visited: strs(self.visited@),
            found: entries(self.found@),
        }
    }
}

/// No handle is visited twice; every collection found was visited, and no
/// two collections share a handle.
pub open spec fn discovery_wf(v: DiscoveryView) -> bool {
    &&& distinct(v.visited)
    &&& distinct(handles_of(v.found))
    &&& forall|k: int| 0 <= k < v.found.len() ==> v.visited.contains(#[trigger] v.found[k].0)
}

impl Discovery {
    pub open spec fn wf(&self) -> bool {
        discovery_wf(self@)
    }

    /// The walk starts at one community, with an empty folder path.
    pub fn new(root: &str) -> (d: Discovery)
        ensures
            d.wf(),
            d@.queue == seq![(root@, Seq::<Seq<char>>::empty())],
            d@.visited == Seq::<Seq<char>>::empty(),
            d@.found == Seq::<(Seq<char>, Seq<Seq<char>>)>::empty(),
    {
        let mut queue: Vec<Entry> = Vec::new();
        queue.push(Entry { handle: owned(root), path: Vec::new() });
        let d = Discovery { queue, visited: Vec::new(), found: Vec::new() };
        assert(d@.queue =~= seq![(root@, Seq::<Seq<char>>::empty())]) by {
            assert(d@.queue[0] == d.queue@[0]@);
            assert(strs(d.queue@[0].path@) =~= Seq::<Seq<char>>::empty());
        }
        assert(d@.visited =~= Seq::<Seq<char>>::empty());
        assert(d@.found =~= Seq::<(Seq<char>, Seq<Seq<char>>)>::empty());
        d
    }

    /// The next community to read: the first queued entry not visited yet,
    /// which is marked visited; entries before it are dropped. `None` when
    /// the queue holds nothing new.
    pub fn next_visit(&mut self) -> (r: Option<Entry>)
        requires
            old(self).wf(),
        ensures
            final(self).wf(),
            final(self)@.found == old(self)@.found,
            match first_unvisited(old(self)@.queue, old(self)@.visited, 0) {
                Some(k) => r matches Some(e) && e@ == old(self)@.queue[k]
                    && !old(self)@.visited.contains(e@.0)
                    && final(self)@.visited == old(self)@.visited.push(e@.0)
                    && final(self)@.queue == old(self)@.queue.skip(k + 1),
                None => r is None && final(self)@.visited == old(self)@.visited
                    && final(self)@.queue.len() == 0,
            },
    {
        let ghost q0 = self@.queue;
        let ghost v0 = self@.visited;
        let ghost mut j: int = 0;
        while self.queue.len() > 0
            invariant
                0 <= j <= q0.len(),
                self@.queue == q0.skip(j),
                self@.visited == v0,
                self@.found == old(self)@.found,
                q0 == old(self)@.queue,
                v0 == old(self)@.visited,
                self.wf(),
                first_unvisited(q0, v0, 0) == first_unvisited(q0, v0, j),
            decreases self.queue@.len(),
        {
            let ghost before = self.queue@;
            let e = self.queue.remove(0);
            proof {
                lemma_entries_remove_first(before);
                assert(q0.skip(j)[0] == q0[j]);
                assert(q0.skip(j).skip(1) =~= q0.skip(j + 1));
            }
            if !knows(&self.visited, &e.handle) {
                let ghost vb = self.visited@;
                let hc = e.handle.clone();
                self.visited.push(hc);
                proof {
                    lemma_strs_push(vb, hc);
                    let nv = self@.visited;
                    assert forall|a: int, b: int| 0 <= a < b < nv.len() implies nv[a] != nv[b] by {
                        if b == nv.len() - 1 {
                            assert(v0.contains(nv[a]));
                        }
                    }
                    assert forall|k: int| 0 <= k < self@.found.len() implies self@.visited.contains(
                        #[trigger] self@.found[k].0,
                    ) by {
                        let w = choose|w: int| 0 <= w < v0.len() && v0[w] == self@.found[k].0;
                        assert(self@.visited[w] == v0[w]);
                    }
                }
                return Some(e);
            }
            proof {
                j = j + 1;
            }
        }
        assert(q0.skip(j).len() == 0);
        None
    }

    /// What one community page adds: its unvisited sub-communities are
    /// queued under the page's folders, then its unvisited collections are
    /// marked visited and recorded. A page that could not be read adds
    /// nothing.
    pub fn absorb(&mut self, from: &Entry, page: Option<CommunityPage>)
        requires
            old(self).wf(),
        ensures
            final(self).wf(),
            match page {
                None => final(self)@ == old(self)@,
                Some(p) => {
                    let folder = page_folder(from@, opt_view(p.title));
                    &&& final(self)@.queue == old(self)@.queue + queued(
                        opt_views(p.communities@),
                        old(self)@.visited,
                        folder,
                    )
                    &&& (final(self)@.visited, final(self)@.found) == collected(
                        pair_views(p.collections@),
                        old(self)@.visited,
                        old(self)@.found,
                        folder,
                    )
                },
            },
    {
        let p = match page {
            None => return,
            Some(p) => p,
        };
        let name = match &p.title {
            Some(t) => slugify(t.as_str()),
            None => slugify(from.handle.as_str()),
        };
        let mut folder = copy_strings(&from.path);
        folder.push(name);
        let ghost fv = page_folder(from@, opt_view(p.title));
        assert(strs(folder@) =~= fv);
        let ghost q0 = self@.queue;
        let ghost v0 = self@.visited;
        let ghost f0 = self@.found;
        let ghost links = opt_views(p.communities@);
        let mut i: usize = 0;
        while i < p.communities.len()
            invariant
                i <= p.communities@.len(),
                links == opt_views(p.communities@),
                strs(folder@) == fv,
                self@.visited == v0,
                self@.found == f0,
                self@.queue == q0 + queued(links.take(i as int), v0, fv),
                self.wf(),
            decreases p.communities@.len() - i,
        {
            let h = link_handle_of(&p.communities[i]);
            assert(links.take(i + 1).drop_last() =~= links.take(i as int));
            assert(links.take(i + 1).last() == links[i as int]);
            match h {
                Some(h) => {
                    if !knows(&self.visited, &h) {
                        let ghost qb = self.queue@;
                        let ne = Entry { handle: h, path: copy_strings(&folder) };
                        self.queue.push(ne);
                        proof {
                            lemma_entries_push(qb, ne);
                        }
                        assert(self@.queue =~= q0 + queued(links.take(i + 1), v0, fv));
                    } else {
                        assert(self@.queue =~= q0 + queued(links.take(i + 1), v0, fv));
                    }
                },
                None => {
                    assert(self@.queue =~= q0 + queued(links.take(i + 1), v0, fv));
                },
            }
            i = i + 1;
        }
        assert(links.take(p.communities@.len() as int) =~= links);
        let ghost q1 = self@.queue;
        let ghost cl = pair_views(p.collections@);
        let mut k: usize = 0;
        while k < p.collections.len()
            invariant
                k <= p.collections@.len(),
                cl == pair_views(p.collections@),
                strs(folder@) == fv,
                self@.queue == q1,
                (self@.visited, self@.found) == collected(cl.take(k as int), v0, f0, fv),
                self.wf(),
            decreases p.collections@.len() - k,
        {
            let h = link_handle_of(&p.collections[k].0);
            assert(cl.take(k + 1).drop_last() =~= cl.take(k as int));
            assert(cl.take(k + 1).last() == cl[k as int]);
            match h {
                Some(h) => {
                    if !knows(&self.visited, &h) {
                        let label = slugify(p.collections[k].1.as_str());
                        let mut path = copy_strings(&folder);
                        let ghost pb = path@;
                        let lc = label.clone();
                        path.push(lc);
                        proof {
                            lemma_strs_push(pb, lc);
                            assert(cl[k as int] == pair_view(p.collections@[k as int]));
                        }
                        let ghost vb = self@.visited;
                        let ghost fb = self@.found;
                        let ghost vraw = self.visited@;
                        let ghost fraw = self.found@;
                        let hc = h.clone();
                        self.visited.push(hc);
                        let ne = Entry { handle: h, path };
                        self.found.push(ne);
                        proof {
                            lemma_strs_push(vraw, hc);
                            lemma_entries_push(fraw, ne);
                            assert(self@.visited =~= vb.push(h@));
                            assert(self@.found =~= fb.push((h@, fv.push(saved_name(cl[k as int].1)))));
                            let nv = self@.visited;
                            assert forall|a: int, b: int| 0 <= a < b < nv.len() implies nv[a] != nv[b] by {
                                if b == nv.len() - 1 {
                                    assert(vb.contains(nv[a]));
                                }
                            }
                            let hs = handles_of(self@.found);
                            assert forall|a: int, b: int| 0 <= a < b < hs.len() implies hs[a] != hs[b] by {
                                assert(hs[a] == self@.found[a].0);
                                assert(hs[b] == self@.found[b].0);
                                if b == hs.len() - 1 {
                                    assert(vb.contains(fb[a].0));
                                } else {
                                    assert(handles_of(fb)[a] == fb[a].0);
                                    assert(handles_of(fb)[b] == fb[b].0);
                                }
                            }
                            assert forall|m: int| 0 <= m < self@.found.len() implies self@.visited.contains(
                                #[trigger] self@.found[m].0,
                            ) by {
                                if m < fb.len() {
                                    let w = choose|w: int| 0 <= w < vb.len() && vb[w] == fb[m].0;
                                    assert(self@.visited[w] == vb[w]);
                                } else {
                                    assert(self@.visited[vb.len() as int] == h@);
                                }
                            }
                        }
                    }
                },
                None => {},
            }
            k = k + 1;
        }
        assert(cl.take(p.collections@.len() as int) =~= cl);
    }

    /// Reads one fetched community page (`None` when it could not be
    /// fetched) with the page's selectors and adds what it links to.
    pub fn page_read(&mut self, from: &Entry, html: Option<&str>)
        requires
            old(self).wf(),
        ensures
            final(self).wf(),
            match html {
                None => final(self)@ == old(self)@,
                Some(h) => {
                    let folder = page_folder(from@, page_title(h@));
                    &&& final(self)@.queue == old(self)@.queue + queued(
                        community_links(h@),
                        old(self)@.visited,
                        folder,
                    )
                    &&& (final(self)@.visited, final(self)@.found) == collected(
                        collection_links(h@),
                        old(self)@.visited,
                        old(self)@.found,
                        folder,
                    )
                },
            },
    {
        match html {
            None => self.absorb(from, None),
            Some(h) => {
                let p = community_page(h);
                self.absorb(from, Some(p));
            },
        }
    }

    /// The collections found so far, in the order they were found.
    pub fn collections(&self) -> (r: Vec<Entry>)
        ensures
            entries(r@) == self@.found,
    {
        copy_entries(&self.found)
    }
}

// ---------------------------------------------------------------------------
// Addresses
// ---------------------------------------------------------------------------

/// The page of a community, collection or item.
pub open spec fn handle_url(base: Seq<char>, handle: Seq<char>) -> Seq<char> {
    base + "/xmlui/handle/"@ + handle
}

pub fn handle_url_of(base: &str, handle: &str) -> (r: String)
    ensures
        r@ == handle_url(base@, handle@),
{
    let mut out = chars_of(base);
    let mid = chars_of("/xmlui/handle/");
    append(&mut out, mid.as_slice());
    let h = chars_of(handle);
    append(&mut out, h.as_slice());
    string_of(out.as_slice())
}

/// Items listed on one page of a collection's title index.
pub const ITEMS_PER_PAGE: usize = 100;

/// The `page`-th page of a collection's title index, a hundred items each.
pub open spec fn listing_url(base: Seq<char>, handle: Seq<char>, page: nat) -> Seq<char> {
    handle_url(base, handle) + "/browse?type=title&rpp=100&etal=0&start="@ + decimal(page * 100)
}

pub fn listing_url_of(base: &str, handle: &str, page: usize) -> (r: String)
    requires
        page * 100 <= usize::MAX,
    ensures
        r@ == listing_url(base@, handle@, page as nat),
{
    let h = handle_url_of(base, handle);
    let mut out = chars_of(h.as_str());
    let q = chars_of("/browse?type=title&rpp=100&etal=0&start=");
    append(&mut out, q.as_slice());
    let start: usize = page * 100;
    let d = decimal_of(start as u64);
    append(&mut out, d.as_slice());
    string_of(out.as_slice())
}

// ---------------------------------------------------------------------------
// Enumerating items
// ---------------------------------------------------------------------------

/// The handles among some links, in order; links without one are dropped.
pub open spec fn handles_in(links: Seq<Option<Seq<char>>>) -> Seq<Seq<char>>
    decreases links.len(),
{
    if links.len() == 0 {
        seq![]
    } else {
        let h = handles_in(links.drop_last());
        match link_handle(links.last()) {
            Some(x) => h.push(x),
            None => h,
        }
    }
}

/// One page of a collection's title index: the item handles it lists and
/// whether it links to a next page.
pub struct Listing {
    pub handles: Vec<String>,
    pub has_next: bool,
}

pub open spec fn item_links(html: Seq<char>) -> Seq<Option<Seq<char>>> {
    found(html_selection(html, ITEM_LINK_CSS@, "href"@)).map_values(
        |p: (Option<Seq<char>>, Seq<char>)| p.0,
    )
}

pub open spec fn links_next(html: Seq<char>) -> bool {
    found(html_selection(html, NEXT_PAGE_CSS@, "href"@)).len() > 0
}

pub fn listing_of(html: &str) -> (l: Listing)
    ensures
        strs(l.handles@) == handles_in(item_links(html@)),
        l.has_next == links_next(html@),
{
    let links = select_or_none(html, ITEM_LINK_CSS, "href");
    let ghost lv = pair_views(links@).map_values(|p: (Option<Seq<char>>, Seq<char>)| p.0);
    let mut handles: Vec<String> = Vec::new();
    let mut i: usize = 0;
    while i < links.len()
        invariant
            i <= links@.len(),
            lv == pair_views(links@).map_values(|p: (Option<Seq<char>>, Seq<char>)| p.0),
            strs(handles@) == handles_in(lv.take(i as int)),
        decreases links@.len() - i,
    {
        let h = link_handle_of(&links[i].0);
        assert(lv.take(i + 1).drop_last() =~= lv.take(i as int));
        assert(lv[i as int] == pair_view(links@[i as int]).0);
        match h {
            Some(x) => {
                let ghost hb = handles@;
                handles.push(x);
                proof {
                    lemma_strs_push(hb, x);
                }
            },
            None => {},
        }
        i = i + 1;
    }
    assert(lv.take(links@.len() as int) =~= lv);
    let next = select_or_none(html, NEXT_PAGE_CSS, "href");
    Listing { handles, has_next: next.len() > 0 }
}

/// The walk over one collection's title index.
pub struct ItemPager {
    from: Entry,
    page: usize,
    items: Vec<Entry>,
    done: bool,
}

pub ghost struct PagerView {
    pub from: (Seq<char>, Seq<Seq<char>>),
    pub page: nat,
    pub items: Seq<(Seq<char>, Seq<Seq<char>>)>,
    pub done: bool,
}

impl View for ItemPager {
    type V = PagerView;

    closed spec fn view(&self) -> PagerView {
        PagerView {
            from: self.from@,
            page: self.page as nat,
            items: entries(self.items@),
            done: self.done,
        }
    }
}

/// The items of a page, each saved under the collection's folders.
pub open spec fn listed(handles: Seq<Seq<char>>, folder: Seq<Seq<char>>) -> Seq<(Seq<char>, Seq<Seq<char>>)> {
    handles.map_values(|h: Seq<char>| (h, folder))
}

/// The largest page number whose start offset is computed without
/// overflow.
pub open spec fn last_page() -> nat {
    (usize::MAX / 100) as nat
}

impl ItemPager {
    pub open spec fn wf(&self) -> bool {
        self@.page <= last_page()
    }

    pub fn new(from: Entry) -> (p: ItemPager)
        ensures
            p.wf(),
            p@.from == from@,
            p@.page == 0,
            p@.items.len() == 0,
            !p@.done,
    {
        let p = ItemPager { from, page: 0, items: Vec::new(), done: false };
        assert(p@.items =~= Seq::<(Seq<char>, Seq<Seq<char>>)>::empty());
        p
    }

    /// The address of the next index page to read; `None` once the walk
    /// has ended.
    pub fn next_url(&self, base: &str) -> (r: Option<String>)
        requires
            self.wf(),
        ensures
            self@.done ==> r is None,
            !self@.done ==> (r matches Some(u) && u@ == listing_url(base@, self@.from.0, self@.page)),
    {
        if self.done {
            None
        } else {
            Some(listing_url_of(base, self.from.handle.as_str(), self.page))
        }
    }

    /// What one index page adds: an unreadable page or one without items
    /// ends the walk; otherwise its items are recorded, and the walk goes
    /// on to the next page when this one links to it.
    pub fn absorb(&mut self, l: Option<Listing>)
        requires
            old(self).wf(),
            !old(self)@.done,
        ensures
            final(self).wf(),
            final(self)@.from == old(self)@.from,
            match l {
                None => final(self)@.done && final(self)@.items == old(self)@.items,
                Some(x) => if x.handles@.len() == 0 {
                    final(self)@.done && final(self)@.items == old(self)@.items
                } else {
                    &&& final(self)@.items == old(self)@.items + listed(
                        strs(x.handles@),
                        old(self)@.from.1,
                    )
                    &&& (!x.has_next ==> final(self)@.done)
                    &&& (x.has_next && old(self)@.page < last_page() ==> !final(self)@.done
                        && final(self)@.page == old(self)@.page + 1)
                    &&& (x.has_next && old(self)@.page == last_page() ==> final(self)@.done)
                },
            },
    {
        match l {
            None => {
                self.done = true;
            },
            Some(x) => {
                self.absorb_listing(x);
            },
        }
    }

    fn absorb_listing(&mut self, x: Listing)
        requires
            old(self).wf(),
            !old(self)@.done,
        ensures
            final(self).wf(),
            final(self)@.from == old(self)@.from,
            if x.handles@.len() == 0 {
                final(self)@.done && final(self)@.items == old(self)@.items
            } else {
                &&& final(self)@.items == old(self)@.items + listed(
                    strs(x.handles@),
                    old(self)@.from.1,
                )
                &&& (!x.has_next ==> final(self)@.done)
                &&& (x.has_next && old(self)@.page < last_page() ==> !final(self)@.done
                    && final(self)@.page == old(self)@.page + 1)
                &&& (x.has_next && old(self)@.page == last_page() ==> final(self)@.done)
            },
    {
        if x.handles.len() == 0 {
            self.done = true;
            return;
        }
        let ghost i0 = self@.items;
        let ghost folder = self@.from.1;
        let ghost hs = strs(x.handles@);
        let mut i: usize = 0;
        while i < x.handles.len()
            invariant
                i <= x.handles@.len(),
                hs == strs(x.handles@),
                folder == self@.from.1,
                self@.from == old(self)@.from,
                self@.page == old(self)@.page,
                !self@.done,
                self.wf(),
                self@.items == i0 + listed(hs.take(i as int), folder),
            decreases x.handles@.len() - i,
        {
            let ghost ib = self.items@;
            let e = Entry { handle: x.handles[i].clone(), path: copy_strings(&self.from.path) };
            self.items.push(e);
            proof {
                lemma_entries_push(ib, e);
                assert(listed(hs.take(i + 1), folder) =~= listed(hs.take(i as int), folder).push(
                    (hs[i as int], folder),
                ));
                assert(self@.items =~= i0 + listed(hs.take(i + 1), folder));
            }
            i = i + 1;
        }
        assert(hs.take(x.handles@.len() as int) =~= hs);
        if !x.has_next || self.page >= usize::MAX / 100 {
            self.done = true;
        } else {
            self.page = self.page + 1;
        }
    }

    /// Reads one fetched index page (`None` when it could not be fetched).
    pub fn page_read(&mut self, html: Option<&str>)
        requires
            old(self).wf(),
            !old(self)@.done,
        ensures
            final(self).wf(),
            final(self)@.from == old(self)@.from,
            match html {
                None => final(self)@.done && final(self)@.items == old(self)@.items,
                Some(h) => if handles_in(item_links(h@)).len() == 0 {
                    final(self)@.done && final(self)@.items == old(self)@.items
                } else {
                    &&& final(self)@.items == old(self)@.items + listed(
                        handles_in(item_links(h@)),
                        old(self)@.from.1,
                    )
                    &&& (!links_next(h@) ==> final(self)@.done)
                    &&& (links_next(h@) && old(self)@.page < last_page() ==> !final(self)@.done
                        && final(self)@.page == old(self)@.page + 1)
                    &&& (links_next(h@) && old(self)@.page == last_page() ==> final(self)@.done)
                },
            },
    {
        match html {
            None => self.absorb(None),
            Some(h) => {
                let l = listing_of(h);
                self.absorb(Some(l));
            },
        }
    }

    pub fn is_done(&self) -> (b: bool)
        ensures
            b == self@.done,
    {
        self.done
    }

    /// The items recorded so far.
    pub fn items(&self) -> (r: Vec<Entry>)
        ensures
            entries(r@) == self@.items,
    {
        copy_entries(&self.items)
    }
}

/// Items listed under several collections: the first listing of each
/// handle is kept, later ones are dropped.
pub open spec fn first_listings(s: Seq<(Seq<char>, Seq<Seq<char>>)>) -> Seq<(Seq<char>, Seq<Seq<char>>)>
    decreases s.len(),
{
    if s.len() == 0 {
        seq![]
    } else {
        let u = first_listings(s.drop_last());
        if handles_of(u).contains(s.last().0) {
            u
        } else {
            u.push(s.last())
        }
    }
}

pub fn unique_items(all: &Vec<Entry>) -> (r: Vec<Entry>)
    ensures
        entries(r@) == first_listings(entries(all@)),
        distinct(handles_of(entries(r@))),
{
    let ghost s = entries(all@);
    let mut out: Vec<Entry> = Vec::new();
    let mut seen: Vec<String> = Vec::new();
    let mut i: usize = 0;
    while i < all.len()
        invariant
            i <= all@.len(),
            s == entries(all@),
            entries(out@) == first_listings(s.take(i as int)),
            strs(seen@) == handles_of(entries(out@)),
            distinct(strs(seen@)),
        decreases all@.len() - i,
    {
        assert(s.take(i + 1).drop_last() =~= s.take(i as int));
        assert(s.take(i + 1).last() == all@[i as int]@);
        if !knows(&seen, &all[i].handle) {
            let ghost ob = out@;
            let ghost sb = seen@;
            let e = all[i].duplicate();
            let hc = all[i].handle.clone();
            out.push(e);
            seen.push(hc);
            proof {
                lemma_entries_push(ob, e);
                lemma_strs_push(sb, hc);
                assert(handles_of(entries(out@)) =~= handles_of(entries(ob)).push(hc@));
                let nv = strs(seen@);
                assert forall|a: int, b: int| 0 <= a < b < nv.len() implies nv[a] != nv[b] by {
                    if b == nv.len() - 1 {
                        assert(strs(sb).contains(nv[a]));
                    }
                }
            }
        }
        i = i + 1;
    }
    assert(s.take(all@.len() as int) =~= s);
    out
}

// ---------------------------------------------------------------------------
// Files of an item
// ---------------------------------------------------------------------------

/// What follows the last `c` of `s` (all of `s` when there is none).
pub open spec fn after_last(s: Seq<char>, c: char) -> Seq<char> {
    s.skip(last_of(s, c) + 1)
}

pub proof fn lemma_last_of(s: Seq<char>, c: char)
    ensures
        -1 <= last_of(s, c) < s.len(),
        last_of(s, c) >= 0 ==> s[last_of(s, c)] == c,
        forall|j: int| last_of(s, c) < j < s.len() ==> s[j] != c,
    decreases s.len(),
{
    if s.len() > 0 && s.last() != c {
        lemma_last_of(s.drop_last(), c);
        assert forall|j: int| last_of(s, c) < j < s.len() implies s[j] != c by {
            if j < s.len() - 1 {
                assert(s[j] == s.drop_last()[j]);
            }
        }
    }
}

fn after_last_of(s: &[char], c: char) -> (r: Vec<char>)
    ensures
        r@ == after_last(s@, c),
{
    let n = s.len();
    let mut i: usize = n;
    while i > 0
        invariant
            i <= n,
            n == s@.len(),
            forall|j: int| i <= j < n ==> s@[j] != c,
        decreases i,
    {
        if s[i - 1] == c {
            proof {
                lemma_last_of(s@, c);
                lemma_last_is(s@, c, i - 1);
            }
            return subslice(s, i, n);
        }
        i = i - 1;
    }
    proof {
        lemma_last_of(s@, c);
        if last_of(s@, c) >= 0 {
            assert(s@[last_of(s@, c)] == c);
        }
    }
    let r = subslice(s, 0, n);
    assert(r@ =~= s@.skip(0));
    r
}

proof fn lemma_last_is(s: Seq<char>, c: char, k: int)
    requires
        0 <= k < s.len(),
        s[k] == c,
        forall|j: int| k < j < s.len() ==> s[j] != c,
    ensures
        last_of(s, c) == k,
{
    lemma_last_of(s, c);
    if last_of(s, c) < k {
        assert(s[k] != c);
    }
    if last_of(s, c) > k {
        assert(s[last_of(s, c)] == c);
    }
}

/// A file attached to an item: where to download it and the name it is
/// listed under.
pub struct Bitstream {
    pub url: String,
    pub filename: String,
}

/// The file a file-wrapper on an item page describes: only links into
/// `/bitstream/handle/` count; the address is the link without its query,
/// after the repository's base address; the name is the listed title, else
/// the percent-decoded last segment of the link, else `file.pdf`.
pub open spec fn bitstream_of(base: Seq<char>, href: Option<Seq<char>>, title: Option<Seq<char>>) -> Option<
    (Seq<char>, Seq<char>),
> {
    match href {
        None => None,
        Some(h) => if !contains(h, "/bitstream/handle/"@) {
            None
        } else {
            let clean = before_char(h, '?');
            let name = match title {
                Some(t) => t,
                None => match url_decoded(after_last(clean, '/')) {
                    Some(d) => d,
                    None => "file.pdf"@,
                },
            };
            Some((base + clean, name))
        },
    }
}

pub fn bitstream_from_parts(base: &str, href: &Option<String>, title: &Option<String>) -> (r: Option<
    Bitstream,
>)
    ensures
        match bitstream_of(base@, opt_view(*href), opt_view(*title)) {
            Some(b) => r matches Some(x) && x.url@ == b.0 && x.filename@ == b.1,
            None => r is None,
        },
{
    let h = match href {
        Some(h) => h,
        None => return None,
    };
    let hv = chars_of(h.as_str());
    let marker = chars_of("/bitstream/handle/");
    if !contains_in(hv.as_slice(), marker.as_slice()) {
        return None;
    }
    let clean = before_char_of(hv.as_slice(), '?');
    let filename = match title {
        Some(t) => t.clone(),
        None => {
            let last = after_last_of(clean.as_slice(), '/');
            let ls = string_of(last.as_slice());
            match url_decode(ls.as_str()) {
                Some(d) => d,
                None => owned("file.pdf"),
            }
        },
    };
    let mut url = chars_of(base);
    append(&mut url, clean.as_slice());
    Some(Bitstream { url: string_of(url.as_slice()), filename })
}

/// The wrappers of an item page, each with its link address and listed
/// title.
pub open spec fn file_parts(html: Seq<char>) -> Seq<(Option<Seq<char>>, Option<Seq<char>>)> {
    match html_nested_selection(
        html,
        FILE_WRAPPER_CSS@,
        FILE_LINK_CSS@,
        "href"@,
        FILE_NAME_CSS@,
        "title"@,
    ) {
        Some(s) => s,
        None => seq![],
    }
}

/// The files an item page lists, in page order.
pub open spec fn files_of(base: Seq<char>, parts: Seq<(Option<Seq<char>>, Option<Seq<char>>)>) -> Seq<
    (Seq<char>, Seq<char>),
>
    decreases parts.len(),
{
    if parts.len() == 0 {
        seq![]
    } else {
        let f = files_of(base, parts.drop_last());
        match bitstream_of(base, parts.last().0, parts.last().1) {
            Some(b) => f.push(b),
            None => f,
        }
    }
}

pub open spec fn bitstreams(v: Seq<Bitstream>) -> Seq<(Seq<char>, Seq<char>)> {
    v.map_values(|b: Bitstream| (b.url@, b.filename@))
}

pub fn item_files(base: &str, html: &str) -> (r: Vec<Bitstream>)
    ensures
        bitstreams(r@) == files_of(base@, file_parts(html@)),
{
    let parts = match select_within(
        html,
        FILE_WRAPPER_CSS,
        (FILE_LINK_CSS, "href"),
        (FILE_NAME_CSS, "title"),
    ) {
        Some(v) => v,
        None => Vec::new(),
    };
    let ghost pv = parts@.map_values(|p: (Option<String>, Option<String>)| opt_pair_view(p));
    assert(pv == file_parts(html@));
    let mut out: Vec<Bitstream> = Vec::new();
    let mut i: usize = 0;
    while i < parts.len()
        invariant
            i <= parts@.len(),
            pv == parts@.map_values(|p: (Option<String>, Option<String>)| opt_pair_view(p)),
            bitstreams(out@) == files_of(base@, pv.take(i as int)),
        decreases parts@.len() - i,
    {
        assert(pv.take(i + 1).drop_last() =~= pv.take(i as int));
        assert(pv.take(i + 1).last() == opt_pair_view(parts@[i as int]));
        match bitstream_from_parts(base, &parts[i].0, &parts[i].1) {
            Some(b) => {
                let ghost ob = out@;
                out.push(b);
                assert(bitstreams(out@) =~= bitstreams(ob).push((b.url@, b.filename@)));
            },
            None => {},
        }
        i = i + 1;
    }
    assert(pv.take(parts@.len() as int) =~= pv);
    out
}

// ---------------------------------------------------------------------------
// Downloading
// ---------------------------------------------------------------------------

/// What to do before a file is requested.
pub enum Precheck {
    /// The destination drive went offline: stop.
    Offline,
    /// A non-empty file is already there: nothing to do.
    Present,
    /// Request the file.
    Fetch,
}

/// The drive is checked first; then an existing non-empty file (its length
/// when it exists and can be read) is kept.
pub fn download_precheck(drive_ok: bool, existing_len: Option<u64>) -> (r: Precheck)
    ensures
        !drive_ok ==> r is Offline,
        drive_ok && (existing_len matches Some(n) && n > 0) ==> r is Present,
        drive_ok && !(existing_len matches Some(n) && n > 0) ==> r is Fetch,
{
    if !drive_ok {
        return Precheck::Offline;
    }
    match existing_len {
        Some(n) => if n > 0 {
            Precheck::Present
        } else {
            Precheck::Fetch
        },
        None => Precheck::Fetch,
    }
}

/// The name a download is written to before it is renamed into place:
/// the destination's extension (`pdf` when it has none) followed by
/// `.part`, as the new extension.
pub open spec fn part_extension(ext: Option<Seq<char>>) -> Seq<char> {
    match ext {
        Some(e) => e + ".part"@,
        None => "pdf.part"@,
    }
}

pub fn part_extension_of(ext: Option<&str>) -> (r: String)
    ensures
        r@ == part_extension(match ext {
            Some(e) => Some(e@),
            None => None,
        }),
{
    match ext {
        Some(e) => {
            let mut v = chars_of(e);
            let p = chars_of(".part");
            append(&mut v, p.as_slice());
            string_of(v.as_slice())
        },
        None => owned("pdf.part"),
    }
}

/// Progress is saved after every fiftieth completed file or item.
pub fn save_due(count: usize) -> (b: bool)
    ensures
        b == (count % 50 == 0),
{
    count % 50 == 0
}

/// The drive is probed again when the bytes written so far sit within
/// 500 000 bytes past a multiple of 25 000 000.
pub fn drive_probe_due(bytes: u64) -> (b: bool)
    ensures
        b == (bytes % 25_000_000 < 500_000),
{
    bytes % 25_000_000 < 500_000
}

/// Whole mebibytes in a byte count.
pub fn megabytes(bytes: u64) -> (m: u64)
    ensures
        m == bytes / 1_048_576,
{
    bytes / 1_048_576
}

// ---------------------------------------------------------------------------
// The download of one file
// ---------------------------------------------------------------------------

/// Where the download of one file stands: what it waits for next.
#[derive(PartialEq, Eq, Structural, Clone, Copy)]
pub enum Stage {
    /// Nothing happened yet.
    Begin,
    /// The file was requested; the reply is awaited.
    Requested,
    /// The body is being read.
    Reading,
    /// An earlier copy with the same content is being linked.
    Linking,
    /// The drive is being checked before the file is written.
    Checking,
    /// The file is being written.
    Saving,
    /// Nothing more to do.
    Done,
}

/// What happened since the last step.
pub enum DownloadEvent {
    /// The download starts: whether the drive is usable, and the length of
    /// the destination file when it exists and can be read.
    Began { drive_ok: bool, existing_len: Option<u64> },
    /// A reply came, with its `Content-Type` when it has one that reads as
    /// text.
    Replied { content_type: Option<String> },
    /// No usable reply came.
    NoReply,
    /// The body was read.
    BodyRead { bytes: Vec<u8> },
    /// The body could not be read.
    BodyFailed,
    /// An earlier copy with the same content was hard-linked in place.
    Linked,
    /// There was no earlier copy, or it could not be linked.
    NotLinked,
    /// The drive was checked.
    DriveChecked { ok: bool },
    /// The file was written and moved into place.
    Saved,
    /// The file could not be written.
    SaveFailed,
}

/// Why a download stopped without a file.
pub enum DownloadFailure {
    DriveOffline,
    NoResponse,
    NotPdfType,
    BodyUnreadable,
    NotPdfBody,
    DriveLost,
    WriteFailed,
}

/// What to do next.
pub enum DownloadAction {
    /// The file is already there: nothing to do.
    Skip,
    /// Request the file.
    Request,
    /// Read the body of the reply.
    ReadBody,
    /// Hard-link an earlier copy recorded under this content hash, if any.
    LinkDuplicate { hash: String },
    /// Probe the drive before writing.
    CheckDrive,
    /// Write the body to the `.part` file and move it into place.
    Save,
    /// Record the content hash for the file just saved; the download is done.
    Register { hash: String },
    /// An earlier copy was linked; the download is done.
    Finish,
    /// The download failed.
    Fail(DownloadFailure),
}

/// The download of one file, with what it has established so far.
pub struct Download {
    stage: Stage,
    hash: String,
    type_ok: bool,
    body_ok: bool,
    drive_ok: bool,
    body: Ghost<Seq<u8>>,
}

pub ghost struct DownloadView {
    pub stage: Stage,
    /// The content hash of the accepted body, in lower-case hex.
    pub hash: Seq<char>,
    /// The accepted body.
    pub body: Seq<u8>,
    /// The reply's `Content-Type` let a PDF through.
    pub type_ok: bool,
    /// A body was accepted: it starts with `%PDF-`, and `hash` is its SHA-256.
    pub body_ok: bool,
    /// The drive was found writable after the body was read.
    pub drive_ok: bool,
}

impl View for Download {
    type V = DownloadView;

    closed spec fn view(&self) -> DownloadView {
        DownloadView {
            stage: self.stage,
            hash: self.hash@,
            body: self.body@,
            type_ok: self.type_ok,
            body_ok: self.body_ok,
            drive_ok: self.drive_ok,
        }
    }
}

/// The event each stage waits for.
pub open spec fn event_fits(stage: Stage, e: DownloadEvent) -> bool {
    match stage {
        Stage::Begin => e is Began,
        Stage::Requested => e is Replied || e is NoReply,
        Stage::Reading => e is BodyRead || e is BodyFailed,
        Stage::Linking => e is Linked || e is NotLinked,
        Stage::Checking => e is DriveChecked,
        Stage::Saving => e is Saved || e is SaveFailed,
        Stage::Done => false,
    }
}

/// What each stage has established: a body is read only after its type
/// was accepted, hashed only when it is a PDF, written only after the
/// drive check passed; the hash kept is that of the body accepted.
pub open spec fn download_wf(v: DownloadView) -> bool {
    &&& (v.body_ok ==> looks_like_pdf(v.body) && v.hash == lower_hex(sha256(v.body)))
    &&& (v.stage is Reading ==> v.type_ok)
    &&& (v.stage is Linking || v.stage is Checking ==> v.type_ok && v.body_ok)
    &&& (v.stage is Saving ==> v.type_ok && v.body_ok && v.drive_ok)
}

impl Download {
    pub open spec fn wf(&self) -> bool {
        download_wf(self@)
    }

    pub fn new() -> (d: Download)
        ensures
            d.wf(),
            d@.stage == Stage::Begin,
            !d@.type_ok && !d@.body_ok && !d@.drive_ok,
    {
        Download {
            stage: Stage::Begin,
            hash: String::new(),
            type_ok: false,
            body_ok: false,
            drive_ok: false,
            body: Ghost(Seq::empty()),
        }
    }

    /// The stage the download is in.
    pub fn stage(&self) -> (s: Stage)
        ensures
            s == self@.stage,
    {
        self.stage
    }

    /// Whether an event is the one the download waits for.
    pub fn fits(&self, e: &DownloadEvent) -> (b: bool)
        ensures
            b == event_fits(self@.stage, *e),
    {
        match self.stage {
            Stage::Begin => matches!(e, DownloadEvent::Began { .. }),
            Stage::Requested => matches!(e, DownloadEvent::Replied { .. } | DownloadEvent::NoReply),
            Stage::Reading => matches!(e, DownloadEvent::BodyRead { .. } | DownloadEvent::BodyFailed),
            Stage::Linking => matches!(e, DownloadEvent::Linked | DownloadEvent::NotLinked),
            Stage::Checking => matches!(e, DownloadEvent::DriveChecked { .. }),
            Stage::Saving => matches!(e, DownloadEvent::Saved | DownloadEvent::SaveFailed),
            Stage::Done => false,
        }
    }

    /// One step: the drive and an existing file are checked first; a reply
    /// whose type cannot be a PDF, or a body that does not start with
    /// `%PDF-`, fails the download; a valid body is looked up by its hash
    /// for an earlier copy; otherwise the drive is probed, the file saved,
    /// and its hash registered: the SHA-256 of the body that was accepted,
    /// which no later step changes. Nothing is written before the type, the
    /// body and the drive were accepted.
    pub fn step(&mut self, e: DownloadEvent) -> (a: DownloadAction)
        requires
            old(self).wf(),
            event_fits(old(self)@.stage, e),
        ensures
            final(self).wf(),
            a is Save ==> final(self)@.type_ok && final(self)@.body_ok && final(self)@.drive_ok,
            a is Register ==> old(self)@.stage is Saving && a->Register_hash@ == old(self)@.hash
                && a->Register_hash@ == lower_hex(sha256(old(self)@.body)) && looks_like_pdf(
                old(self)@.body,
            ),
            !(e is BodyRead) ==> final(self)@.hash == old(self)@.hash && final(self)@.body == old(
                self,
            )@.body,
            old(self)@.type_ok ==> final(self)@.type_ok,
            old(self)@.body_ok ==> final(self)@.body_ok,
            old(self)@.drive_ok ==> final(self)@.drive_ok,
            match e {
                DownloadEvent::Began { drive_ok, existing_len } => if !drive_ok {
                    a matches DownloadAction::Fail(f) && f is DriveOffline && final(self)@.stage is Done
                } else if existing_len matches Some(n) && n > 0 {
                    a is Skip && final(self)@.stage is Done
                } else {
                    a is Request && final(self)@.stage is Requested
                },
                DownloadEvent::NoReply => a matches DownloadAction::Fail(f) && f is NoResponse
                    && final(self)@.stage is Done,
                DownloadEvent::Replied { content_type } => if content_type_allows(
                    opt_view(content_type),
                ) {
                    a is ReadBody && final(self)@.stage is Reading && final(self)@.type_ok
                } else {
                    a matches DownloadAction::Fail(f) && f is NotPdfType && final(self)@.stage is Done
                },
                DownloadEvent::BodyFailed => a matches DownloadAction::Fail(f) && f is BodyUnreadable
                    && final(self)@.stage is Done,
                DownloadEvent::BodyRead { bytes } => if looks_like_pdf(bytes@) {
                    a matches DownloadAction::LinkDuplicate { hash } && hash@ == lower_hex(sha256(bytes@))
                        && final(self)@.hash == hash@ && final(self)@.body == bytes@
                        && final(self)@.stage is Linking
                        && final(self)@.body_ok
                } else {
                    a matches DownloadAction::Fail(f) && f is NotPdfBody && final(self)@.stage is Done
                },
                DownloadEvent::Linked => a is Finish && final(self)@.stage is Done,
                DownloadEvent::NotLinked => a is CheckDrive && final(self)@.stage is Checking,
                DownloadEvent::DriveChecked { ok } => if ok {
                    a is Save && final(self)@.stage is Saving
                } else {
                    a matches DownloadAction::Fail(f) && f is DriveLost && final(self)@.stage is Done
                },
                DownloadEvent::Saved => a is Register && final(self)@.stage is Done,
                DownloadEvent::SaveFailed => a matches DownloadAction::Fail(f) && f is WriteFailed
                    && final(self)@.stage is Done,
            },
    {
        match e {
            DownloadEvent::Began { drive_ok, existing_len } => match download_precheck(drive_ok, existing_len) {
                Precheck::Offline => {
                    self.stage = Stage::Done;
                    DownloadAction::Fail(DownloadFailure::DriveOffline)
                },
                Precheck::Present => {
                    self.stage = Stage::Done;
                    DownloadAction::Skip
                },
                Precheck::Fetch => {
                    self.stage = Stage::Requested;
                    DownloadAction::Request
                },
            },
            DownloadEvent::NoReply => {
                self.stage = Stage::Done;
                DownloadAction::Fail(DownloadFailure::NoResponse)
            },
            DownloadEvent::Replied { content_type } => {
                let allowed = match &content_type {
                    Some(t) => content_type_allows_pdf(Some(t.as_str())),
                    None => content_type_allows_pdf(None),
                };
                if allowed {
                    self.type_ok = true;
                    self.stage = Stage::Reading;
                    DownloadAction::ReadBody
                } else {
                    self.stage = Stage::Done;
                    DownloadAction::Fail(DownloadFailure::NotPdfType)
                }
            },
            DownloadEvent::BodyFailed => {
                self.stage = Stage::Done;
                DownloadAction::Fail(DownloadFailure::BodyUnreadable)
            },
            DownloadEvent::BodyRead { bytes } => {
                if is_valid_pdf(bytes.as_slice()) {
                    let hash = sha256_of(bytes.as_slice());
                    self.hash = hash.clone();
                    self.body = Ghost(bytes@);
                    self.body_ok = true;
                    self.stage = Stage::Linking;
                    DownloadAction::LinkDuplicate { hash }
                } else {
                    self.stage = Stage::Done;
                    DownloadAction::Fail(DownloadFailure::NotPdfBody)
                }
            },
            DownloadEvent::Linked => {
                self.stage = Stage::Done;
                DownloadAction::Finish
            },
            DownloadEvent::NotLinked => {
                self.stage = Stage::Checking;
                DownloadAction::CheckDrive
            },
            DownloadEvent::DriveChecked { ok } => {
                if ok {
                    self.drive_ok = true;
                    self.stage = Stage::Saving;
                    DownloadAction::Save
                } else {
                    self.stage = Stage::Done;
                    DownloadAction::Fail(DownloadFailure::DriveLost)
                }
            },
            DownloadEvent::Saved => {
                self.stage = Stage::Done;
                DownloadAction::Register { hash: self.hash.clone() }
            },
            DownloadEvent::SaveFailed => {
                self.stage = Stage::Done;
                DownloadAction::Fail(DownloadFailure::WriteFailed)
            },
        }
    }
}

} // verus!
