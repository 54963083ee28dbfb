//! Batch downloads: several papers packed into one zip archive, stored
//! without compression.
use vstd::prelude::*;
use std::io::Write;
use crate::display::owned;

verus! {

/// A zip archive being built in memory (`zip::ZipWriter` over a buffer).
#[verifier::external_body]
pub struct ZipBuilder {
    writer: zip::ZipWriter<std::io::Cursor<Vec<u8>>>,
}

/// The entries written so far to a zip archive that is being built in
/// memory, in order: each entry's name and bytes.
pub uninterp spec fn zip_written(w: ZipBuilder) -> Seq<(Seq<char>, Seq<u8>)>;

/// Whether the archive can still be written to: `zip` closes it for good
/// when an entry grows past the size a plain (not zip64) entry can hold.
pub uninterp spec fn zip_usable(w: ZipBuilder) -> bool;

/// The bytes of a finished in-memory archive whose entries were stored
/// (not compressed) with `zip`'s default options.
pub uninterp spec fn stored_zip(entries: Seq<(Seq<char>, Seq<u8>)>) -> Seq<u8>;

/// The most bytes an entry written without the large-file option may hold.
pub const ZIP_ENTRY_LIMIT: u64 = 4294967295;

/// The entry being written, if any, is within the entry limit.
pub open spec fn last_entry_fits(entries: Seq<(Seq<char>, Seq<u8>)>) -> bool {
    entries.len() == 0 || entries.last().1.len() <= ZIP_ENTRY_LIMIT
}

/// Calls `ZipWriter::new` on an empty in-memory buffer: nothing is written
/// and the archive is open.
#[verifier::external_body]
fn zip_open() -> (w: ZipBuilder)
    ensures
        zip_written(w) == Seq::<(Seq<char>, Seq<u8>)>::empty(),
        zip_usable(w),
{
    ZipBuilder { writer: zip::ZipWriter::new(std::io::Cursor::new(Vec::new())) }
}

/// Calls `ZipWriter::start_file` for an entry stored without compression.
/// On an open archive whose current entry is within the limit it succeeds,
/// and a new, still empty entry is the one being written; on a closed
/// archive it fails and the archive stays closed. What the entries are
/// after a failure is left unsaid.
#[verifier::external_body]
fn zip_start(w: &mut ZipBuilder, name: &str) -> (ok: bool)
    ensures
        ok ==> zip_written(*final(w)) == zip_written(*old(w)).push((name@, Seq::<u8>::empty())),
        ok ==> zip_usable(*final(w)),
        zip_usable(*old(w)) && last_entry_fits(zip_written(*old(w))) ==> ok,
        !zip_usable(*old(w)) ==> !ok && !zip_usable(*final(w)),
{
    let opts = zip::write::FileOptions::default().compression_method(zip::CompressionMethod::Stored);
    w.writer.start_file(name, opts).is_ok()
}

/// Calls `Write::write_all` on the archive. Writing no bytes succeeds and
/// changes nothing. Otherwise the bytes go to the entry being written: on
/// an open archive with an entry started this succeeds while the entry
/// stays within the limit; past the limit `zip` closes the archive and the
/// call fails. With no entry started the call fails and leaves the archive
/// as it was; on a closed archive it fails. What the entries are after a
/// failed write that closed the archive is left unsaid.
#[verifier::external_body]
fn zip_write_all(w: &mut ZipBuilder, bytes: &[u8]) -> (ok: bool)
    ensures
        bytes@.len() == 0 ==> ok && zip_written(*final(w)) == zip_written(*old(w)) && zip_usable(
            *final(w),
        ) == zip_usable(*old(w)),
        ok && bytes@.len() > 0 ==> {
            let before = zip_written(*old(w));
            &&& before.len() > 0
            &&& zip_written(*final(w)) == before.drop_last().push(
                (before.last().0, before.last().1 + bytes@),
            )
            &&& zip_usable(*final(w))
            &&& zip_written(*final(w)).last().1.len() <= ZIP_ENTRY_LIMIT
        },
        ({
            let before = zip_written(*old(w));
            zip_usable(*old(w)) && before.len() > 0 && bytes@.len() > 0 ==> (ok <==> before.last().1.len()
                + bytes@.len() <= ZIP_ENTRY_LIMIT)
        }),
        zip_usable(*old(w)) && zip_written(*old(w)).len() == 0 && bytes@.len() > 0 ==> !ok
            && zip_written(*final(w)) == zip_written(*old(w)) && zip_usable(*final(w)),
        zip_usable(*old(w)) && zip_written(*old(w)).len() > 0 && !ok ==> !zip_usable(*final(w)),
        !zip_usable(*old(w)) && bytes@.len() > 0 ==> !ok && !zip_usable(*final(w)),
{
    w.writer.write_all(bytes).is_ok()
}

/// Calls `ZipWriter::finish` and takes the buffer out: the archive's bytes
/// when it could be finished. An open archive whose current entry is within
/// the limit is finished; a closed one is not.
#[verifier::external_body]
fn zip_finish(w: ZipBuilder) -> (r: Option<Vec<u8>>)
    ensures
        r matches Some(b) ==> b@ == stored_zip(zip_written(w)),
        zip_usable(w) && last_entry_fits(zip_written(w)) ==> r is Some,
        !zip_usable(w) ==> r is None,
{
    let mut writer = w.writer;
    writer.finish().ok().map(|c| c.into_inner())
}

/// One paper of a batch: the name it gets in the archive and its bytes.
pub struct BatchFile {
    pub name: String,
    pub bytes: Vec<u8>,
}

pub open spec fn batch_entries(files: Seq<BatchFile>) -> Seq<(Seq<char>, Seq<u8>)> {
    files.map_values(|f: BatchFile| (f.name@, f.bytes@))
}

/// The name a resolved file gets in the archive: its own file name, or
/// `document.pdf` when it has none that reads as text.
pub fn entry_name(file_name: Option<&str>) -> (r: String)
    ensures
        r@ == match file_name {
            Some(n) => n@,
            None => "document.pdf"@,
        },
{
    match file_name {
        Some(n) => owned(n),
        None => owned("document.pdf"),
    }
}

/// Every paper of the batch fits in a plain zip entry.
pub open spec fn every_entry_fits(files: Seq<BatchFile>) -> bool {
    forall|i: int| 0 <= i < files.len() ==> #[trigger] files[i].bytes@.len() <= ZIP_ENTRY_LIMIT
}

/// Packs the papers, in order, into one archive of stored entries. The
/// archive is made exactly when every paper fits in a plain zip entry
/// (at most 4 GiB less one byte); the flag says so, and the bytes are then
/// the archive of those entries. A paper past that size closes the archive
/// for good, and no bytes come back.
pub fn batch_archive(files: &Vec<BatchFile>) -> (r: (bool, Vec<u8>))
    ensures
        r.0 <==> every_entry_fits(files@),
        r.0 ==> r.1@ == stored_zip(batch_entries(files@)),
        !r.0 ==> r.1@.len() == 0,
{
    let mut w = zip_open();
    let mut all_ok = true;
    let mut i: usize = 0;
    while i < files.len()
        invariant
            i <= files@.len(),
            all_ok <==> every_entry_fits(files@.take(i as int)),
            all_ok ==> zip_written(w) == batch_entries(files@).take(i as int),
            all_ok ==> zip_usable(w) && last_entry_fits(zip_written(w)),
            !all_ok ==> !zip_usable(w),
        decreases files@.len() - i,
    {
        let ghost before = zip_written(w);
        let ghost was_ok = all_ok;
        let started = zip_start(&mut w, files[i].name.as_str());
        let ghost opened = zip_written(w);
        let ok = started && zip_write_all(&mut w, files[i].bytes.as_slice());
        proof {
            let f = files@[i as int];
            if was_ok {
                assert(started);
                assert(opened.last().1 =~= Seq::<u8>::empty());
                let entry = (f.name@, f.bytes@);
                assert(opened.drop_last() =~= before);
                assert(Seq::<u8>::empty() + f.bytes@ =~= f.bytes@);
                assert(batch_entries(files@).take(i + 1) =~= before.push(entry));
                if f.bytes@.len() == 0 {
                    assert(opened =~= before.push(entry));
                }
            }
            assert(files@.take(i + 1) =~= files@.take(i as int).push(f));
            assert(files@.take(i + 1)[i as int] == f);
        }
        all_ok = all_ok && ok;
        i = i + 1;
    }
    assert(files@.take(files@.len() as int) =~= files@);
    assert(batch_entries(files@).take(files@.len() as int) =~= batch_entries(files@));
    match zip_finish(w) {
        Some(b) => (all_ok, b),
        None => (false, Vec::new()),
    }
}

} // verus!
