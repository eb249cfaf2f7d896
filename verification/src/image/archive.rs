//! The gzip-compressed tar archive of the image build context.
use vstd::prelude::*;

verus! {

/// A tar archive being written through gzip compression into memory: a
/// `tar::Builder` over a `flate2::write::GzEncoder` of a byte buffer. Verus
/// refuses to declare these two generic types (their `Write` bound), so the
/// archive is held here, out of Verus's sight.
#[verifier::external_body]
pub struct ContextArchive {
    inner: tar::Builder<flate2::write::GzEncoder<Vec<u8>>>,
}

/// The entries appended to an archive under construction, in order: path,
/// contents and mode of each.
pub uninterp spec fn archive_entries(b: ContextArchive) -> Seq<(Seq<char>, Seq<u8>, u32)>;

/// Whether `tar::Builder::append_data` accepts the file (`path`, `contents`,
/// `mode`) into an archive that already holds `entries`. An archive is only ever
/// built by `archive_new` and accepted appends, so its state is fixed by its
/// entries, and so is the outcome of the call.
pub uninterp spec fn append_accepted(entries: Seq<(Seq<char>, Seq<u8>, u32)>, path: Seq<char>, contents: Seq<u8>, mode: u32) -> bool;

/// The bytes of the finished, gzip-compressed archive of `entries`, or `None`
/// when finishing it fails.
pub uninterp spec fn compressed_archive(entries: Seq<(Seq<char>, Seq<u8>, u32)>) -> Option<Seq<u8>>;

/// A short relative path that tar stores in a header as it stands: fewer than
/// 100 characters, all ASCII and none of them NUL, with no `/` at either end,
/// and components separated by single `/` and none of them beginning with `.`
/// (so none is `.` or `..`).
pub open spec fn plain_archive_path(p: Seq<char>) -> bool {
    &&& 0 < p.len() < 100
    &&& forall|i: int| 0 <= i < p.len() ==> 0 < (#[trigger] p[i] as u32) < 128
    &&& p[0] != '/' && p[0] != '.'
    &&& p.last() != '/'
    &&& forall|i: int| 0 <= i < p.len() && #[trigger] p[i] == '/' ==> i + 1 < p.len() && p[i + 1] != '/' && p[i + 1] != '.'
}

/// Creates an archive writer: `tar::Builder::new` over a
/// `flate2::write::GzEncoder` of an empty buffer at the default level.
///
/// Trusted: the new archive holds no entries.
#[verifier::external_body]
pub(crate) fn archive_new() -> (b: ContextArchive)
    ensures
        archive_entries(b) == Seq::<(Seq<char>, Seq<u8>, u32)>::empty(),
{
    let encoder = flate2::write::GzEncoder::new(Vec::new(), flate2::Compression::default());
    ContextArchive { inner: tar::Builder::new(encoder) }
}

/// Appends a regular file with `tar::Builder::append_data`, under a fresh GNU
/// header that carries its size and mode.
///
/// Trusted: the call succeeds exactly when `append_accepted` holds of the
/// archive's entries and the file (the outcome depends on nothing else: the
/// archive is written to memory), and then the archive holds one more entry,
/// this file, after the earlier ones. A plain path is always accepted: its
/// components are all normal ones, it fits the header's name field, it holds no
/// NUL byte, and writing the header and the contents to the in-memory gzip
/// stream does not fail. A refused archive is dropped. The text of the error is
/// not said.
#[verifier::external_body]
pub(crate) fn archive_append(
    b: ContextArchive,
    path: &str,
    contents: &[u8],
    mode: u32,
) -> (res: Result<ContextArchive, String>)
    ensures
        res is Ok <==> append_accepted(archive_entries(b), path@, contents@, mode),
        plain_archive_path(path@) ==> res is Ok,
        res matches Ok(b2) ==> archive_entries(b2) == archive_entries(b).push((path@, contents@, mode)),
{
    let mut b = b;
    let mut header = tar::Header::new_gnu();
    header.set_size(contents.len() as u64);
    header.set_mode(mode);
    header.set_cksum();
    match b.inner.append_data(&mut header, path, contents) {
        Ok(()) => Ok(b),
        Err(e) => Err(e.to_string()),
    }
}

/// Finishes the archive with `tar::Builder::into_inner` and the compression
/// with `flate2::write::GzEncoder::finish`.
///
/// Trusted: the outcome is `compressed_archive` of the archive's entries, a
/// function of the entries alone: the bytes on success, `None` on failure. The
/// text of the error is not said.
#[verifier::external_body]
pub(crate) fn archive_finish(b: ContextArchive) -> (res: Result<Vec<u8>, String>)
    ensures
        match res {
            Ok(bytes) => compressed_archive(archive_entries(b)) == Some(bytes@),
            Err(_) => compressed_archive(archive_entries(b)) is None,
        },
{
    b.inner.into_inner().and_then(|encoder| encoder.finish()).map_err(|e| e.to_string())
}

} // verus!
