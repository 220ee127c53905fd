//! Zip-format containers read from an in-memory byte buffer. What an
//! archive holds — its entry names and the decompressed bytes of each
//! entry — is a function of the buffer alone, so the archive's contents
//! are named over the buffer and every method contract speaks of them.
use vstd::prelude::*;

verus! {

#[verifier::external_type_specification]
#[verifier::external_body]
#[verifier::reject_recursive_types(R)]
pub struct ExZipArchive<R>(zip::ZipArchive<R>);

#[verifier::external_type_specification]
#[verifier::external_body]
#[verifier::reject_recursive_types(T)]
pub struct ExCursor<T>(std::io::Cursor<T>);

/// Whether the bytes open as a zip archive.
pub uninterp spec fn zip_ok(data: Seq<u8>) -> bool;

/// The entry names the archive's directory lists, in order.
pub uninterp spec fn zip_names(data: Seq<u8>) -> Seq<Seq<char>>;

/// Whether the entry at an index can be looked up.
pub uninterp spec fn zip_name_ok(data: Seq<u8>, i: int) -> bool;

/// The decompressed bytes of the entry at an index.
pub uninterp spec fn zip_payload(data: Seq<u8>, i: int) -> Seq<u8>;

/// Whether the entry at an index decompresses without error.
pub uninterp spec fn zip_payload_ok(data: Seq<u8>, i: int) -> bool;

/// The bytes an open archive was read from.
pub uninterp spec fn archive_source(a: zip::ZipArchive<std::io::Cursor<Vec<u8>>>) -> Seq<u8>;

/// Relies on zip::ZipArchive::new over an in-memory cursor: it parses
/// the archive directory from the bytes alone, succeeding exactly on
/// the buffers it accepts as archives.
#[verifier::external_body]
pub(crate) fn zip_open(data: &Vec<u8>) -> (r: Option<zip::ZipArchive<std::io::Cursor<Vec<u8>>>>)
    ensures
        r is Some <==> zip_ok(data@),
        r is Some ==> archive_source(r->0) == data@,
{
    zip::ZipArchive::new(std::io::Cursor::new(data.clone())).ok()
}

/// Relies on zip::ZipArchive::len: the number of entries the archive
/// directory lists.
#[verifier::external_body]
pub(crate) fn zip_len(a: &zip::ZipArchive<std::io::Cursor<Vec<u8>>>) -> (n: usize)
    ensures
        n == zip_names(archive_source(*a)).len(),
{
    a.len()
}

/// Relies on zip::ZipArchive::by_index, zip::read::ZipFile::name and
/// std::io::Read::read_to_end: the entry's name and decompressed bytes
/// are functions of the archive bytes and the index alone; reading
/// moves only the cursor, so the archive still holds the same bytes.
#[verifier::external_body]
pub(crate) fn zip_entry(a: &mut zip::ZipArchive<std::io::Cursor<Vec<u8>>>, i: usize) -> (r: Option<
    (String, Option<Vec<u8>>),
>)
    requires
        i < zip_names(archive_source(*old(a))).len(),
    ensures
        archive_source(*final(a)) == archive_source(*old(a)),
        r is Some <==> zip_name_ok(archive_source(*old(a)), i as int),
        r is Some ==> (r->0).0@ == zip_names(archive_source(*old(a)))[i as int],
        r is Some ==> ((r->0).1 is Some <==> zip_payload_ok(archive_source(*old(a)), i as int)),
        r is Some && (r->0).1 is Some ==> ((r->0).1)->0@ == zip_payload(
            archive_source(*old(a)),
            i as int,
        ),
{
    match a.by_index(i) {
        Ok(mut f) => {
            let name = f.name().to_string();
            let mut buf: Vec<u8> = Vec::new();
            match std::io::Read::read_to_end(&mut f, &mut buf) {
                Ok(_) => Some((name, Some(buf))),
                Err(_) => Some((name, None)),
            }
        },
        Err(_) => None,
    }
}

} // verus!
