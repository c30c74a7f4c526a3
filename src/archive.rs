use vstd::prelude::*;
use crate::extract::ArchiveEntry;

verus! {

#[verifier::external_type_specification]
#[verifier::external_body]
#[verifier::reject_recursive_types(T)]
pub struct ExCursor<T>(std::io::Cursor<T>);

#[verifier::external_type_specification]
#[verifier::external_body]
#[verifier::reject_recursive_types(R)]
pub struct ExZipArchive<R>(zip::ZipArchive<R>);

/// An entry as the archive holds it: its path, whether it is a directory,
/// and its inflated bytes where they could be read. `None` stands for an
/// entry that could not be opened.
pub type EntryModel = Option<(Seq<char>, bool, Option<Seq<u8>>)>;

/// The entries that zip finds in these bytes, in the order of the central
/// directory, or `None` where the bytes hold no archive it can read.
pub uninterp spec fn zip_of(bytes: Seq<u8>) -> Option<Seq<EntryModel>>;

/// The entries of an open archive, in the order of its central directory.
pub uninterp spec fn zip_contents(a: zip::ZipArchive<std::io::Cursor<Vec<u8>>>) -> Seq<
    EntryModel,
>;

pub open spec fn data_view(d: Option<Vec<u8>>) -> Option<Seq<u8>> {
    match d {
        Some(v) => Some(v@),
        None => None,
    }
}

pub open spec fn entry_model(e: Option<ArchiveEntry>) -> EntryModel {
    match e {
        Some(x) => Some((x.path@, x.is_dir, data_view(x.data))),
        None => None,
    }
}

/// Relies on zip::ZipArchive::new over an in-memory cursor: it reads the
/// central directory of the bytes, or fails where they hold no archive.
#[verifier::external_body]
fn open_zip(bytes: Vec<u8>) -> (r: Option<zip::ZipArchive<std::io::Cursor<Vec<u8>>>>)
    ensures
        r is None <==> zip_of(bytes@) is None,
        r matches Some(a) ==> zip_contents(a) == zip_of(bytes@)->0,
{
    zip::ZipArchive::new(std::io::Cursor::new(bytes)).ok()
}

/// Relies on zip::ZipArchive::len: the number of entries.
#[verifier::external_body]
fn zip_len(a: &zip::ZipArchive<std::io::Cursor<Vec<u8>>>) -> (r: usize)
    ensures
        r == zip_contents(*a).len(),
{
    a.len()
}

/// Relies on zip::ZipArchive::by_index and, on the entry it opens,
/// ZipFile::name, ZipFile::is_dir and std::io::Read::read_to_end: entry `i`
/// as the archive holds it. Reading moves the archive's cursor and leaves
/// its entries as they were.
#[verifier::external_body]
fn zip_entry(a: &mut zip::ZipArchive<std::io::Cursor<Vec<u8>>>, i: usize) -> (r: Option<
    ArchiveEntry,
>)
    requires
        i < zip_contents(*old(a)).len(),
    ensures
        zip_contents(*final(a)) == zip_contents(*old(a)),
        entry_model(r) == zip_contents(*old(a))[i as int],
{
    let mut f = a.by_index(i).ok()?;
    let path = f.name().ok()?.into_owned();
    let is_dir = f.is_dir();
    let mut buf = Vec::new();
    let data = std::io::Read::read_to_end(&mut f, &mut buf).ok().map(|_| buf);
    Some(ArchiveEntry { path, is_dir, data })
}

/// Every entry of the archive that `bytes` hold, in order, or `None` where
/// they hold no archive.
pub fn read_archive(bytes: Vec<u8>) -> (r: Option<Vec<Option<ArchiveEntry>>>)
    ensures
        r is None <==> zip_of(bytes@) is None,
        r matches Some(v) ==> v@.map_values(|e: Option<ArchiveEntry>| entry_model(e))
            == zip_of(bytes@)->0,
{
    let ghost whole = bytes@;
    let mut a = match open_zip(bytes) {
        Some(a) => a,
        None => return None,
    };
    let ghost contents = zip_contents(a);
    let n = zip_len(&a);
    let mut out: Vec<Option<ArchiveEntry>> = Vec::new();
    let mut i: usize = 0;
    while i < n
        invariant
            n == contents.len(),
            zip_contents(a) == contents,
            contents == zip_of(whole)->0,
            i <= n,
            out@.len() == i,
            forall|j: int| 0 <= j < i ==> entry_model(#[trigger] out@[j]) == contents[j],
        decreases n - i,
    {
        let e = zip_entry(&mut a, i);
        out.push(e);
        i = i + 1;
    }
    assert(out@.map_values(|e: Option<ArchiveEntry>| entry_model(e)) =~= contents);
    Some(out)
}

} // verus!
