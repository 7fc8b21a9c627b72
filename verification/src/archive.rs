//! Zip archives held in memory: the manifest bundles that users import and
//! the compressed manifests that the content server sends.

use std::io::Cursor;
use std::io::Read;
use vstd::prelude::*;
use vstd::utf8::{decode_utf8, valid_utf8};
use zip::ZipArchive;

verus! {

#[verifier::external_type_specification]
#[verifier::external_body]
#[verifier::reject_recursive_types(R)]
pub struct ExZipArchive<R>(ZipArchive<R>);

#[verifier::external_type_specification]
#[verifier::external_body]
#[verifier::reject_recursive_types(T)]
pub struct ExCursor<T>(Cursor<T>);

/// One member of an archive as a reader sees it: `None` when the member
/// cannot be opened; otherwise its name and, when it can be read to the end,
/// its bytes (`None` when reading fails part-way).
pub type EntryView = Option<(Seq<char>, Option<Seq<u8>>)>;

/// What the zip reader makes of the bytes `data`: the members of the
/// archive, in archive order, or, when `data` is not an archive it accepts,
/// the text of the error it reports.
pub uninterp spec fn zip_contents(data: Seq<u8>) -> Result<Seq<EntryView>, Seq<char>>;

/// The members of an opened archive, in archive order.
pub uninterp spec fn archive_entries(a: ZipArchive<Cursor<Vec<u8>>>) -> Seq<EntryView>;

/// Opens the archive whose bytes are `data`.
///
/// Trusted: calls `zip::ZipArchive::new` on a cursor over `data`, and on
/// failure hands back the error's `Display` text. The claim is that opening
/// succeeds exactly for the byte strings that `zip_contents` accepts, that
/// the opened archive holds the members that `zip_contents` names, and that
/// the error text is the one `zip_contents` names; which byte strings those
/// are, what the members are and what the text says is the zip reader's
/// business and is not stated here.
#[verifier::external_body]
pub(crate) fn open_archive(data: Vec<u8>) -> (r: Result<ZipArchive<Cursor<Vec<u8>>>, String>)
    ensures
        match r {
            Ok(a) => zip_contents(data@) == Ok::<Seq<EntryView>, Seq<char>>(archive_entries(a)),
            Err(m) => zip_contents(data@) == Err::<Seq<EntryView>, Seq<char>>(m@),
        },
{
    ZipArchive::new(Cursor::new(data)).map_err(|e| e.to_string())
}

/// The number of members of an archive.
///
/// Trusted: calls `zip::ZipArchive::len`, which counts the files of the
/// central directory, the members that `archive_entries` lists.
#[verifier::external_body]
pub(crate) fn archive_len(a: &ZipArchive<Cursor<Vec<u8>>>) -> (r: usize)
    ensures
        r == archive_entries(*a).len(),
{
    a.len()
}

/// Opens member `i` and reads it to the end.
///
/// Trusted: calls `zip::ZipArchive::by_index`, then the member's `name` and
/// `Read::read_to_end`. The result is the name, the bytes read, and whether
/// the reading reached the end without error. The claim is that the name,
/// whether the reading succeeded, and then the bytes, are member `i` of
/// `archive_entries`, and that reading leaves the archive's members as they
/// were (the archive only moves its reading position). When reading fails
/// part-way the bytes are those read before the failure, as `read_to_end`
/// leaves them; what they are is not stated.
#[verifier::external_body]
pub(crate) fn archive_entry(a: &mut ZipArchive<Cursor<Vec<u8>>>, i: usize) -> (r: Option<
    (String, Vec<u8>, bool),
>)
    requires
        i < archive_entries(*old(a)).len(),
    ensures
        archive_entries(*final(a)) == archive_entries(*old(a)),
        entry_view(r) == archive_entries(*old(a))[i as int],
{
    match a.by_index(i) {
        Ok(mut f) => {
            let name = f.name().to_string();
            let mut buf = Vec::new();
            let complete = f.read_to_end(&mut buf).is_ok();
            Some((name, buf, complete))
        },
        Err(_) => None,
    }
}

/// The plain content of an opened member: its bytes only when it was read
/// to the end.
pub open spec fn entry_view(e: Option<(String, Vec<u8>, bool)>) -> EntryView {
    match e {
        Some((n, b, complete)) => Some(
            (
                n@,
                if complete {
                    Some(b@)
                } else {
                    None
                },
            ),
        ),
        None => None,
    }
}

/// The first member of the archive `data`, when the archive opens, has a
/// member and that member opens: `Some` of its bytes when it reads to the
/// end, `None` when reading fails part-way.
pub open spec fn first_member(data: Seq<u8>) -> Option<Option<Seq<u8>>> {
    match zip_contents(data) {
        Ok(es) => if es.len() > 0 {
            match es[0] {
                Some((_, d)) => Some(d),
                None => None,
            }
        } else {
            None
        },
        Err(_) => None,
    }
}

/// The first member of a zip archive, as the content server sends a
/// manifest: its bytes and whether they were read to the end (when not,
/// they are what was read before the failure).
pub fn first_zip_member(data: Vec<u8>) -> (r: Option<(Vec<u8>, bool)>)
    ensures
        match first_member(data@) {
            None => r is None,
            Some(None) => r matches Some((_, complete)) && !complete,
            Some(Some(b)) => r matches Some((x, complete)) && complete && x@ == b,
        },
{
    match open_archive(data) {
        Ok(mut a) => {
            if archive_len(&a) == 0 {
                return None;
            }
            match archive_entry(&mut a, 0) {
                Some((_, b, complete)) => Some((b, complete)),
                None => None,
            }
        },
        Err(_) => None,
    }
}

/// The text that the bytes `b` hold, when they are valid UTF-8.
///
/// Trusted: calls `String::from_utf8`, which accepts exactly the valid UTF-8
/// byte strings and decodes them.
#[verifier::external_body]
pub(crate) fn utf8_text(b: Vec<u8>) -> (r: Option<String>)
    ensures
        r is Some <==> valid_utf8(b@),
        r matches Some(s) ==> s@ == decode_utf8(b@),
{
    String::from_utf8(b).ok()
}

} // verus!
