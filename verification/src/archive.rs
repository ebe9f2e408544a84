//! Reading jar (zip) archives held in memory, through the `zip` crate.

use vstd::prelude::*;
use crate::text::sviews;

verus! {

/// Names of the entries of a zip archive, in archive order (entries that cannot be
/// opened are left out); `None` when the bytes are not a zip archive.
pub uninterp spec fn zip_entry_names(data: Seq<u8>) -> Option<Seq<Seq<char>>>;

/// Text of the named entry; `None` when the archive cannot be read, has no such entry,
/// or the entry is not UTF-8.
pub uninterp spec fn zip_entry_text(data: Seq<u8>, name: Seq<char>) -> Option<Seq<char>>;

/// `zip::ZipArchive::new`, `len` and `by_index(i).name()`: the archive's entry names.
/// The error text is the crate's message for the failure; nothing is said of it.
#[verifier::external_body]
pub(crate) fn entry_names(data: &[u8]) -> (r: Result<Vec<String>, String>)
    ensures
        match r {
            Ok(v) => zip_entry_names(data@) == Some(sviews(v@)),
            Err(_) => zip_entry_names(data@) is None,
        },
{
    let mut z = zip::ZipArchive::new(std::io::Cursor::new(data)).map_err(|e| e.to_string())?;
    Ok((0..z.len()).filter_map(|i| z.by_index(i).ok().map(|f| f.name().to_string())).collect())
}

/// `zip::ZipArchive::by_name` read to a string.
#[verifier::external_body]
pub(crate) fn entry_text(data: &[u8], name: &str) -> (r: Option<String>)
    ensures
        match r {
            Some(s) => zip_entry_text(data@, name@) == Some(s@),
            None => zip_entry_text(data@, name@) is None,
        },
{
    let mut z = zip::ZipArchive::new(std::io::Cursor::new(data)).ok()?;
    let mut f = z.by_name(name).ok()?;
    let mut s = String::new();
    std::io::Read::read_to_string(&mut f, &mut s).ok()?;
    Some(s)
}

} // verus!
