//! The maintenance tools' decisions: command-line flags, the storage sync
//! command, sidecar paths and the dataset audit's tallies.
use vstd::prelude::*;
use std::collections::HashSet;
use crate::crawl::{looks_like_pdf, strs};
use crate::display::owned;
use crate::text::{append, chars_of, ends_with, ends_with_in, eq_ascii_ci, eq_ignore_ascii_case, string_of, subslice};

verus! {

broadcast use vstd::std_specs::hash::group_hash_axioms;

// ---------------------------------------------------------------------------
// Command lines
// ---------------------------------------------------------------------------

/// The value after the first occurrence of `flag` that has one.
pub open spec fn arg_from(args: Seq<Seq<char>>, flag: Seq<char>, i: int) -> Option<Seq<char>>
    decreases args.len() - i,
{
    if i < 0 || i + 1 >= args.len() {
        None
    } else if args[i] == flag {
        Some(args[i + 1])
    } else {
        arg_from(args, flag, i + 1)
    }
}

/// `--flag value`: the argument after the first `flag` that is followed
/// by one.
pub open spec fn arg_value(args: Seq<Seq<char>>, flag: Seq<char>) -> Option<Seq<char>> {
    arg_from(args, flag, 0)
}

pub fn get_arg(args: &Vec<String>, flag: &str) -> (r: Option<String>)
    ensures
        r matches Some(v) ==> arg_value(strs(args@), flag@) == Some(v@),
        r is None ==> arg_value(strs(args@), flag@) is None,
{
    let f = owned(flag);
    let mut i: usize = 0;
    while i < args.len() && i + 1 < args.len()
        invariant
            f@ == flag@,
            i <= args@.len(),
            arg_from(strs(args@), flag@, 0) == arg_from(strs(args@), flag@, i as int),
        decreases args@.len() - i,
    {
        if args[i] == f {
            assert(strs(args@)[i as int] == flag@);
            assert(strs(args@)[i + 1] == args@[i + 1]@);
            return Some(args[i + 1].clone());
        }
        assert(strs(args@)[i as int] == args@[i as int]@);
        i = i + 1;
    }
    None
}

/// Whether some argument is exactly `flag`.
pub fn has_arg(args: &Vec<String>, flag: &str) -> (b: bool)
    ensures
        b == strs(args@).contains(flag@),
{
    let f = owned(flag);
    let mut i: usize = 0;
    while i < args.len()
        invariant
            i <= args@.len(),
            f@ == flag@,
            forall|j: int| 0 <= j < i ==> strs(args@)[j] != flag@,
        decreases args@.len() - i,
    {
        if args[i] == f {
            assert(strs(args@)[i as int] == flag@);
            return true;
        }
        i = i + 1;
    }
    false
}

/// The `rclone` arguments that mirror the indexed library to object
/// storage: sidecars and the database stay behind, checksums decide what
/// changed.
pub open spec fn sync_args(src: Seq<char>, remote: Seq<char>, dry_run: bool) -> Seq<Seq<char>> {
    let base = seq![
        "sync"@,
        src,
        remote,
        "--exclude"@,
        "*.meta"@,
        "--exclude"@,
        "index.db"@,
        "--transfers"@,
        "16"@,
        "--checkers"@,
        "32"@,
        "--checksum"@,
        "--fast-list"@,
        "--progress"@,
    ];
    if dry_run {
        base.push("--dry-run"@)
    } else {
        base
    }
}

pub fn rclone_args(src: &str, remote: &str, dry_run: bool) -> (r: Vec<String>)
    ensures
        strs(r@) == sync_args(src@, remote@, dry_run),
{
    let mut r: Vec<String> = Vec::new();
    r.push(owned("sync"));
    r.push(owned(src));
    r.push(owned(remote));
    r.push(owned("--exclude"));
    r.push(owned("*.meta"));
    r.push(owned("--exclude"));
    r.push(owned("index.db"));
    r.push(owned("--transfers"));
    r.push(owned("16"));
    r.push(owned("--checkers"));
    r.push(owned("32"));
    r.push(owned("--checksum"));
    r.push(owned("--fast-list"));
    r.push(owned("--progress"));
    if dry_run {
        r.push(owned("--dry-run"));
    }
    assert(strs(r@) =~= sync_args(src@, remote@, dry_run));
    r
}

/// Paths reach `rclone` whole: the source and the remote are single
/// arguments, exactly as given, whatever spaces, ampersands or quotes they
/// hold; nothing else in the command depends on them.
pub proof fn sync_paths_pass_whole(src: Seq<char>, remote: Seq<char>, dry_run: bool)
    ensures
        sync_args(src, remote, dry_run)[1] == src,
        sync_args(src, remote, dry_run)[2] == remote,
        sync_args(src, remote, dry_run).len() == if dry_run {
            15int
        } else {
            14int
        },
        forall|other_src: Seq<char>, other_remote: Seq<char>, i: int|
            0 <= i < sync_args(src, remote, dry_run).len() && i != 1 && i != 2 ==> #[trigger] sync_args(
                other_src,
                other_remote,
                dry_run,
            )[i] == sync_args(src, remote, dry_run)[i],
{
}

// ---------------------------------------------------------------------------
// Sidecar files
// ---------------------------------------------------------------------------

/// `str::trim_end_matches` with a string: the suffix removed as long as
/// the text ends with it.
pub open spec fn strip_suffixes(s: Seq<char>, pat: Seq<char>) -> Seq<char>
    decreases s.len(),
{
    if pat.len() > 0 && ends_with(s, pat) {
        strip_suffixes(s.take(s.len() - pat.len()), pat)
    } else {
        s
    }
}

/// Removing a repeated suffix twice removes nothing more: a path that was
/// already synced maps to the same PDF again.
pub proof fn strip_suffixes_is_stable(s: Seq<char>, pat: Seq<char>)
    ensures
        strip_suffixes(strip_suffixes(s, pat), pat) == strip_suffixes(s, pat),
    decreases s.len(),
{
    if pat.len() > 0 && ends_with(s, pat) {
        strip_suffixes_is_stable(s.take(s.len() - pat.len()), pat);
    }
}

/// The PDF a metadata sidecar describes: `.meta` removed from the end,
/// `.pdf` added.
pub open spec fn pdf_of_sidecar(rel_meta: Seq<char>) -> Seq<char> {
    strip_suffixes(rel_meta, ".meta"@) + ".pdf"@
}

pub fn sidecar_pdf_path(rel_meta: &str) -> (r: String)
    ensures
        r@ == pdf_of_sidecar(rel_meta@),
{
    let mut v = chars_of(rel_meta);
    let pat = chars_of(".meta");
    proof {
        reveal_strlit(".meta");
    }
    while ends_with_in(v.as_slice(), pat.as_slice())
        invariant
            pat@ == ".meta"@,
            pat@.len() == 5,
            strip_suffixes(v@, pat@) == strip_suffixes(rel_meta@, ".meta"@),
        decreases v@.len(),
    {
        let n = v.len();
        let cut = subslice(v.as_slice(), 0, n - 5);
        assert(cut@ =~= v@.take(v@.len() - 5));
        v = cut;
    }
    let pdf = chars_of(".pdf");
    append(&mut v, pdf.as_slice());
    string_of(v.as_slice())
}

/// The path a catalogue record names: its `original_path` when that key is
/// there, else its `local_path`; the value counts only when it is text.
/// The outer option says whether the key is there, the inner one whether
/// its value is text.
pub fn listed_path(original: Option<Option<String>>, local: Option<Option<String>>) -> (r: Option<
    String,
>)
    ensures
        r == match original {
            Some(v) => v,
            None => match local {
                Some(v) => v,
                None => None,
            },
        },
{
    match original {
        Some(v) => v,
        None => match local {
            Some(v) => v,
            None => None,
        },
    }
}

// ---------------------------------------------------------------------------
// Audit tallies
// ---------------------------------------------------------------------------

/// A path counts as a PDF when it is a file whose extension is `pdf` in any
/// ASCII case.
pub fn counts_as_pdf(is_file: bool, ext: Option<&str>) -> (b: bool)
    ensures
        b == (is_file && match ext {
            Some(e) => eq_ascii_ci(e@, "pdf"@),
            None => false,
        }),
{
    if !is_file {
        return false;
    }
    match ext {
        Some(e) => {
            let v = chars_of(e);
            let pdf = chars_of("pdf");
            eq_ignore_ascii_case(v.as_slice(), pdf.as_slice())
        },
        None => false,
    }
}

/// The raw download tree: PDF files, their bytes, and the distinct inodes
/// they occupy (hard links share one).
pub struct RawTally {
    pub files: u64,
    pub bytes: u64,
    pub inodes: HashSet<u64>,
}

impl RawTally {
    pub fn new() -> (t: RawTally)
        ensures
            t.files == 0,
            t.bytes == 0,
            t.inodes@ == Set::<u64>::empty(),
    {
        RawTally { files: 0, bytes: 0, inodes: HashSet::new() }
    }

    /// Counts one PDF; its length and inode when its metadata could be read.
    pub fn add(&mut self, meta: Option<(u64, u64)>)
        requires
            old(self).files < u64::MAX,
            meta matches Some(m) ==> old(self).bytes + m.0 <= u64::MAX,
        ensures
            final(self).files == old(self).files + 1,
            match meta {
                Some(m) => final(self).bytes == old(self).bytes + m.0 && final(self).inodes@
                    == old(self).inodes@.insert(m.1),
                None => final(self).bytes == old(self).bytes && final(self).inodes@
                    == old(self).inodes@,
            },
    {
        self.files = self.files + 1;
        if let Some((len, ino)) = meta {
            self.bytes = self.bytes + len;
            self.inodes.insert(ino);
        }
    }

    /// How many distinct inodes were seen.
    pub fn inode_count(&self) -> (n: usize)
        ensures
            n == self.inodes@.len(),
    {
        self.inodes.len()
    }
}

/// What was read of one file in the indexed tree: its length when its
/// metadata could be read, and its first five bytes when it could be
/// opened and they could be read.
pub struct FileProbe {
    pub len: Option<u64>,
    pub header: Option<Vec<u8>>,
}

/// The indexed tree's integrity counts.
pub struct IndexedTally {
    pub total_files: u64,
    pub total_bytes: u64,
    pub valid_headers: u64,
    pub invalid_headers: u64,
    pub zero_bytes: u64,
}

/// A probed file starts with `%PDF-`.
pub open spec fn header_ok(p: FileProbe) -> bool {
    match p.header {
        Some(h) => h@.len() == 5 && looks_like_pdf(h@),
        None => false,
    }
}

pub open spec fn probe_bytes(s: Seq<FileProbe>) -> nat
    decreases s.len(),
{
    if s.len() == 0 {
        0
    } else {
        probe_bytes(s.drop_last()) + match s.last().len {
            Some(n) => n as nat,
            None => 0,
        }
    }
}

pub open spec fn count_zero(s: Seq<FileProbe>) -> nat
    decreases s.len(),
{
    if s.len() == 0 {
        0
    } else {
        count_zero(s.drop_last()) + if s.last().len == Some(0u64) {
            1nat
        } else {
            0
        }
    }
}

pub open spec fn count_valid(s: Seq<FileProbe>) -> nat
    decreases s.len(),
{
    if s.len() == 0 {
        0
    } else {
        count_valid(s.drop_last()) + if s.last().len matches Some(n) && n > 0 && header_ok(
            s.last(),
        ) {
            1nat
        } else {
            0
        }
    }
}

pub open spec fn count_invalid(s: Seq<FileProbe>) -> nat
    decreases s.len(),
{
    if s.len() == 0 {
        0
    } else {
        count_invalid(s.drop_last()) + if s.last().len matches Some(n) && n > 0 && !header_ok(
            s.last(),
        ) {
            1nat
        } else {
            0
        }
    }
}

proof fn lemma_counts_bounded(s: Seq<FileProbe>)
    ensures
        count_zero(s) + count_valid(s) + count_invalid(s) <= s.len(),
    decreases s.len(),
{
    if s.len() > 0 {
        lemma_counts_bounded(s.drop_last());
    }
}

/// Every listed file counts once; the bytes of those whose length is known
/// are summed (wrapping at 2^64, as an atomic counter does); an empty file
/// counts as zero-byte, any other with a readable length as a valid or an
/// invalid header.
pub fn tally_indexed(probes: &Vec<FileProbe>) -> (t: IndexedTally)
    ensures
        t.total_files == probes@.len(),
        t.total_bytes == probe_bytes(probes@) % 0x1_0000_0000_0000_0000,
        t.zero_bytes == count_zero(probes@),
        t.valid_headers == count_valid(probes@),
        t.invalid_headers == count_invalid(probes@),
        t.zero_bytes + t.valid_headers + t.invalid_headers <= t.total_files,
{
    let count = probes.len();
    let mut total_bytes: u64 = 0;
    let mut valid: u64 = 0;
    let mut invalid: u64 = 0;
    let mut zero: u64 = 0;
    let mut i: usize = 0;
    while i < probes.len()
        invariant
            i <= probes@.len(),
            count == probes@.len(),
            total_bytes == probe_bytes(probes@.take(i as int)) % 0x1_0000_0000_0000_0000,
            zero == count_zero(probes@.take(i as int)),
            valid == count_valid(probes@.take(i as int)),
            invalid == count_invalid(probes@.take(i as int)),
        decreases probes@.len() - i,
    {
        let ghost pre = probes@.take(i as int);
        let ghost cur = probes@.take(i + 1);
        assert(cur.drop_last() =~= pre);
        proof {
            lemma_counts_bounded(pre);
        }
        let p = &probes[i];
        if let Some(len) = p.len {
            let ghost s: int = probe_bytes(pre) as int;
            if len > u64::MAX - total_bytes {
                total_bytes = len - (u64::MAX - total_bytes) - 1;
                proof {
                    lemma_wrap(s, total_bytes as int, len as int, true);
                }
            } else {
                total_bytes = total_bytes + len;
                proof {
                    lemma_wrap(s, total_bytes as int, len as int, false);
                }
            }
            if len == 0 {
                zero = zero + 1;
            } else {
                let ok = match &p.header {
                    Some(h) => h.len() == 5 && crate::crawl::is_valid_pdf(h.as_slice()),
                    None => false,
                };
                if ok {
                    valid = valid + 1;
                } else {
                    invalid = invalid + 1;
                }
            }
        }
        i = i + 1;
    }
    assert(probes@.take(probes@.len() as int) =~= probes@);
    proof {
        lemma_counts_bounded(probes@);
    }
    IndexedTally {
        total_files: count as u64,
        total_bytes,
        valid_headers: valid,
        invalid_headers: invalid,
        zero_bytes: zero,
    }
}

proof fn lemma_wrap(s: int, t_new: int, len: int, wrapped: bool)
    requires
        0 <= s,
        0 <= len < 0x1_0000_0000_0000_0000,
        wrapped ==> t_new == s % 0x1_0000_0000_0000_0000 + len - 0x1_0000_0000_0000_0000,
        !wrapped ==> t_new == s % 0x1_0000_0000_0000_0000 + len,
        0 <= t_new < 0x1_0000_0000_0000_0000,
    ensures
        t_new == (s + len) % 0x1_0000_0000_0000_0000,
{
    let m: int = 0x1_0000_0000_0000_0000;
    let q = s / m;
    assert(s == q * m + s % m) by (nonlinear_arith)
        requires
            m > 0,
            q == s / m,
    ;
    if wrapped {
        assert(s + len == (q + 1) * m + t_new) by (nonlinear_arith)
            requires
                s == q * m + s % m,
                t_new == s % m + len - m,
        ;
        vstd::arithmetic::div_mod::lemma_fundamental_div_mod_converse(s + len, m, q + 1, t_new);
    } else {
        assert(s + len == q * m + t_new);
        vstd::arithmetic::div_mod::lemma_fundamental_div_mod_converse(s + len, m, q, t_new);
    }
}

/// How many catalogue records were checked against the disk, found, or
/// missed.
pub struct ReconcileTally {
    total: usize,
    matched: usize,
    missing: usize,
}

impl ReconcileTally {
    pub closed spec fn total_spec(&self) -> nat {
        self.total as nat
    }

    pub closed spec fn matched_spec(&self) -> nat {
        self.matched as nat
    }

    pub closed spec fn missing_spec(&self) -> nat {
        self.missing as nat
    }

    /// Found and missed records are among the records checked.
    pub open spec fn wf(&self) -> bool {
        self.matched_spec() + self.missing_spec() <= self.total_spec()
    }

    pub fn new() -> (t: ReconcileTally)
        ensures
            t.wf(),
            t.total_spec() == 0 && t.matched_spec() == 0 && t.missing_spec() == 0,
    {
        ReconcileTally { total: 0, matched: 0, missing: 0 }
    }

    pub fn total(&self) -> (n: usize)
        ensures
            n == self.total_spec(),
    {
        self.total
    }

    pub fn matched(&self) -> (n: usize)
        ensures
            n == self.matched_spec(),
    {
        self.matched
    }

    pub fn missing(&self) -> (n: usize)
        ensures
            n == self.missing_spec(),
    {
        self.missing
    }

    /// Counts one record: `None` when it names no path, else whether the
    /// file was found (where it was recorded or under one of the roots).
    pub fn record(&mut self, found: Option<bool>)
        requires
            old(self).wf(),
            old(self).total_spec() < usize::MAX,
        ensures
            final(self).wf(),
            final(self).total_spec() == old(self).total_spec() + 1,
            final(self).matched_spec() == old(self).matched_spec() + if found == Some(true) {
                1int
            } else {
                0
            },
            final(self).missing_spec() == old(self).missing_spec() + if found == Some(false) {
                1int
            } else {
                0
            },
    {
        self.total = self.total + 1;
        match found {
            Some(true) => {
                self.matched = self.matched + 1;
            },
            Some(false) => {
                self.missing = self.missing + 1;
            },
            None => {},
        }
    }
}

} // verus!
