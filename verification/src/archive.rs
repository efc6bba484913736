//! Packaging of rendered stickers as a ZIP archive and as a download link.

use vstd::prelude::*;
use vstd::string::StringExecFns;
use crate::codec::{base64, base64_encode, base64_fits};

verus! {

/// A ZIP archive that is being written to memory.
#[verifier::external_body]
pub struct Archive {
    writer: zip::ZipWriter<std::io::Cursor<Vec<u8>>>,
}

/// The files that have been written to an archive so far, in order, each
/// with its name and its text.
pub uninterp spec fn archive_files(a: Archive) -> Seq<(Seq<char>, Seq<char>)>;

/// Whether a file called `name` can be started in an archive that holds
/// `files`.
pub uninterp spec fn file_starts(files: Seq<(Seq<char>, Seq<char>)>, name: Seq<char>) -> bool;

/// Whether `text` can be written to the end of the last file of an archive
/// that holds `files`.
pub uninterp spec fn text_fits(files: Seq<(Seq<char>, Seq<char>)>, text: Seq<char>) -> bool;

/// What finishing an archive that holds `files` gives: the bytes of the ZIP
/// archive, deflated and without time stamps, or `None` where the archive
/// cannot be finished.
pub uninterp spec fn finished_zip(files: Seq<(Seq<char>, Seq<char>)>) -> Option<Seq<u8>>;

/// Calls `zip::ZipWriter::new` on an empty buffer in memory: an archive
/// without files.
#[verifier::external_body]
fn archive_new() -> (a: Archive)
    ensures
        archive_files(a) == Seq::<(Seq<char>, Seq<char>)>::empty(),
{
    Archive { writer: zip::ZipWriter::new(std::io::Cursor::new(Vec::new())) }
}

/// Calls `zip::ZipWriter::start_file` with the default options and the
/// deflate method. The archive is written to memory, so whether the call
/// succeeds depends on what the archive holds and on the name alone; the
/// contract gives that the name `file_starts`. Where it succeeds, the
/// archive has one more file, called `name` and still empty; nothing is
/// said of an archive after a failure.
#[verifier::external_body]
fn archive_start_file(a: &mut Archive, name: &str) -> (ok: bool)
    ensures
        ok == file_starts(archive_files(*old(a)), name@),
        ok ==> archive_files(*final(a)) == archive_files(*old(a)).push((name@, Seq::empty())),
{
    let options = zip::write::FileOptions::default().compression_method(
        zip::CompressionMethod::Deflated,
    );
    a.writer.start_file(name, options).is_ok()
}

/// Calls `write_all` of `std::io::Write` on an archive in which a file has
/// been started. Whether the call succeeds depends on what the archive
/// holds and on the text alone; the contract gives that the name
/// `text_fits`. Where it succeeds, `text` now stands at the end of the last
/// file; nothing is said of an archive after a failure.
#[verifier::external_body]
fn archive_write(a: &mut Archive, text: &str) -> (ok: bool)
    requires
        archive_files(*old(a)).len() > 0,
    ensures
        ok == text_fits(archive_files(*old(a)), text@),
        ok ==> archive_files(*final(a)) == archive_files(*old(a)).drop_last().push(
            (archive_files(*old(a)).last().0, archive_files(*old(a)).last().1 + text@),
        ),
{
    std::io::Write::write_all(&mut a.writer, text.as_bytes()).is_ok()
}

/// Calls `zip::ZipWriter::finish` and takes the buffer out of its cursor;
/// an error becomes `None`. The outcome depends on the files written
/// alone, and the contract gives it the name `finished_zip`.
#[verifier::external_body]
fn archive_finish(a: Archive) -> (r: Option<Vec<u8>>)
    ensures
        bytes_view(r) == finished_zip(archive_files(a)),
{
    let mut a = a;
    a.writer.finish().ok().map(|cursor| cursor.into_inner())
}

/// The names and texts of a vector of files.
pub open spec fn files_view(files: Seq<(String, String)>) -> Seq<(Seq<char>, Seq<char>)> {
    Seq::new(files.len(), |i: int| (files[i].0@, files[i].1@))
}

/// The bytes that an optional vector of bytes holds.
pub open spec fn bytes_view(bytes: Option<Vec<u8>>) -> Option<Seq<u8>> {
    match bytes {
        Some(b) => Some(b@),
        None => None,
    }
}

/// Whether the first `n` of `files` can be written to a new archive one
/// after the other: each can be started in the archive of those before it,
/// and its text can be written to it.
pub open spec fn files_added(files: Seq<(Seq<char>, Seq<char>)>, n: int) -> bool
    decreases n,
{
    if n <= 0 {
        true
    } else {
        &&& files_added(files, n - 1)
        &&& file_starts(files.take(n - 1), files[n - 1].0)
        &&& text_fits(files.take(n - 1).push((files[n - 1].0, Seq::empty())), files[n - 1].1)
    }
}

/// The ZIP archive of `files`: what finishing gives once all the files are
/// written, or `None` where one of them, or the archive, cannot be written.
pub open spec fn zipped(files: Seq<(Seq<char>, Seq<char>)>) -> Option<Seq<u8>> {
    if files_added(files, files.len() as int) {
        finished_zip(files)
    } else {
        None
    }
}

/// Once a file could not be written, the files after it do not mend the
/// archive.
pub proof fn lemma_files_stay_unwritten(files: Seq<(Seq<char>, Seq<char>)>, n: int, m: int)
    requires
        n <= m,
        !files_added(files, n),
    ensures
        !files_added(files, m),
    decreases m - n,
{
    if n < m {
        lemma_files_stay_unwritten(files, n, m - 1);
    }
}

/// Packs `files`, each a name and a text, into a ZIP archive, in order:
/// each file is started and its text written, and the archive is finished.
/// The result is the archive's bytes, or `None` as soon as the archive
/// refuses a step.
pub fn zip_archive(files: &Vec<(String, String)>) -> (r: Option<Vec<u8>>)
    ensures
        bytes_view(r) == zipped(files_view(files@)),
{
    let mut archive = archive_new();
    let mut i: usize = 0;
    while i < files.len()
        invariant
            i <= files@.len(),
            archive_files(archive) == files_view(files@).take(i as int),
            files_added(files_view(files@), i as int),
        decreases files@.len() - i,
    {
        let ghost before = archive_files(archive);
        let ghost all = files_view(files@);
        assert(all[i as int] == (files@[i as int].0@, files@[i as int].1@));
        if !archive_start_file(&mut archive, files[i].0.as_str()) {
            proof {
                assert(!files_added(all, i + 1));
                lemma_files_stay_unwritten(all, i + 1, all.len() as int);
            }
            return None;
        }
        if !archive_write(&mut archive, files[i].1.as_str()) {
            proof {
                assert(!files_added(all, i + 1));
                lemma_files_stay_unwritten(all, i + 1, all.len() as int);
            }
            return None;
        }
        proof {
            let entry = (files@[i as int].0@, Seq::<char>::empty() + files@[i as int].1@);
            assert(Seq::<char>::empty() + files@[i as int].1@ == files@[i as int].1@);
            assert(before.push((files@[i as int].0@, Seq::<char>::empty())).drop_last() == before);
            assert(files_view(files@).take(i + 1) == before.push(entry));
        }
        i += 1;
    }
    assert(files_view(files@).take(files@.len() as int) == files_view(files@));
    archive_finish(archive)
}

/// The link from which an archive of the given bytes can be downloaded: a
/// data URL in base64.
pub open spec fn download_link(bytes: Seq<u8>) -> Seq<char> {
    "data:application/zip;base64,"@ + base64(bytes)
}

/// The link that offers `archive` for download, where there is an archive
/// and its base64 form has a length that fits in `usize`.
pub open spec fn offered_link(archive: Option<Seq<u8>>) -> Option<Seq<char>> {
    match archive {
        Some(bytes) => if base64_fits(bytes.len()) {
            Some(download_link(bytes))
        } else {
            None
        },
        None => None,
    }
}

/// Turns the bytes of an archive, if there are any, into a download link.
pub fn link_of_archive(archive: Option<Vec<u8>>) -> (r: Option<String>)
    ensures
        r is Some <==> offered_link(
            match archive {
                Some(bytes) => Some(bytes@),
                None => None,
            },
        ) is Some,
        r matches Some(link) ==> Some(link@) == offered_link(
            match archive {
                Some(bytes) => Some(bytes@),
                None => None,
            },
        ),
{
    match archive {
        Some(bytes) => {
            if bytes.len() / 3 > (usize::MAX - 4) / 4 {
                None
            } else {
                let encoded = base64_encode(&bytes);
                Some("data:application/zip;base64,".to_owned().concat(encoded.as_str()))
            }
        },
        None => None,
    }
}

/// Packs `files`, each a name and a text, into a ZIP archive and gives the
/// link from which it can be downloaded. There is no link where the
/// archive cannot be written or is too large for a link.
pub fn generate_download_link(files: &Vec<(String, String)>) -> (r: Option<String>)
    ensures
        r is Some <==> offered_link(zipped(files_view(files@))) is Some,
        r matches Some(link) ==> Some(link@) == offered_link(zipped(files_view(files@))),
{
    link_of_archive(zip_archive(files))
}

} // verus!
