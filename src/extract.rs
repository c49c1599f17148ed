//! Unpacking a downloaded release archive (a gzip-compressed tar stream) to the
//! bytes of the executable it carries.
use vstd::prelude::*;
use crate::text::{file_name, path_file_name};
use crate::upgrade::UpgradeError;

verus! {

/// What `flate2::read::GzDecoder` decompresses a byte stream to, read to its end;
/// `None` where it reports an error.
pub uninterp spec fn gunzipped(data: Seq<u8>) -> Option<Seq<u8>>;

/// Relies on `flate2::read::GzDecoder`, read to the end: the decompressed bytes,
/// or an error for a stream that is not valid gzip.
#[verifier::external_body]
fn gunzip(data: &[u8]) -> (r: Option<Vec<u8>>)
    ensures
        match r {
            Some(v) => gunzipped(data@) == Some(v@),
            None => gunzipped(data@) is None,
        },
{
    let mut out = Vec::new();
    std::io::Read::read_to_end(&mut flate2::read::GzDecoder::new(data), &mut out).ok().map(|_| out)
}

/// What `tar::Archive::entries` lists for a tar stream: the path and contents of
/// each entry, in stream order, up to the first error; and whether the stream was
/// read to its end without one.
pub uninterp spec fn tar_listing(data: Seq<u8>) -> (Seq<(Seq<char>, Seq<u8>)>, bool);

pub open spec fn entries_view(v: Seq<(String, Vec<u8>)>) -> Seq<(Seq<char>, Seq<u8>)> {
    v.map_values(|e: (String, Vec<u8>)| (e.0@, e.1@))
}

/// Relies on `tar::Archive::entries`, `tar::Entry::path` and reading each entry:
/// the entries in stream order, stopping at the first error.
#[verifier::external_body]
fn tar_entries(data: &[u8]) -> (r: (Vec<(String, Vec<u8>)>, bool))
    ensures
        (entries_view(r.0@), r.1) == tar_listing(data@),
{
    let mut out = Vec::new();
    let mut ar = tar::Archive::new(data);
    let Ok(entries) = ar.entries() else { return (out, false) };
    for e in entries {
        let Ok(mut e) = e else { return (out, false) };
        let Ok(p) = e.path().map(|p| p.to_string_lossy().into_owned()) else { return (out, false) };
        let mut buf = Vec::new();
        let Ok(_) = std::io::Read::read_to_end(&mut e, &mut buf) else { return (out, false) };
        out.push((p, buf));
    }
    (out, true)
}

/// An entry whose base file name is the executable's name, `cue`.
pub open spec fn is_executable_entry(path: Seq<char>) -> bool {
    path_file_name(path) == Some("cue"@)
}

pub open spec fn first_executable(es: Seq<(Seq<char>, Seq<u8>)>, i: int) -> bool {
    &&& 0 <= i < es.len()
    &&& is_executable_entry(es[i].0)
    &&& forall|j: int| 0 <= j < i ==> !is_executable_entry(#[trigger] es[j].0)
}

pub open spec fn no_executable(es: Seq<(Seq<char>, Seq<u8>)>) -> bool {
    forall|j: int| 0 <= j < es.len() ==> !is_executable_entry(#[trigger] es[j].0)
}

/// The outcome of picking the executable out of a listing: the contents of the
/// first entry named `cue`; where there is none, `NoBinaryInArchive` for a listing
/// read to its end and an `Io` error for one cut short by a read error.
pub open spec fn selected(
    es: Seq<(Seq<char>, Seq<u8>)>,
    complete: bool,
    r: Result<Vec<u8>, UpgradeError>,
) -> bool {
    match r {
        Ok(p) => exists|i: int| first_executable(es, i) && p@ == es[i].1,
        Err(UpgradeError::NoBinaryInArchive) => complete && no_executable(es),
        Err(UpgradeError::Io(_)) => !complete && no_executable(es),
        Err(_) => false,
    }
}

/// Pick the executable out of the entries of an archive, in stream order: the
/// contents of the first entry whose base file name is `cue`; later entries are
/// ignored. `complete` tells whether the listing reached the end of the stream.
pub fn select_payload(entries: Vec<(String, Vec<u8>)>, complete: bool) -> (r: Result<
    Vec<u8>,
    UpgradeError,
>)
    ensures
        selected(entries_view(entries@), complete, r),
        r is Ok <==> !no_executable(entries_view(entries@)),
{
    let ghost es = entries_view(entries@);
    let mut list = entries;
    let n = list.len();
    let mut i: usize = 0;
    while i < n
        invariant
            0 <= i <= n,
            n == list@.len(),
            es == entries_view(list@),
            es == entries_view(entries@),
            forall|j: int| 0 <= j < i ==> !is_executable_entry(#[trigger] es[j].0),
        decreases n - i,
    {
        assert(es[i as int] == (list@[i as int].0@, list@[i as int].1@));
        let name = file_name(list[i].0.as_str());
        let hit = match name {
            Some(f) => f == String::from_str("cue"),
            None => false,
        };
        if hit {
            assert(es[i as int] == (list@[i as int].0@, list@[i as int].1@));
            assert(first_executable(es, i as int));
            assert(is_executable_entry(es[i as int].0));
            let e = list.remove(i);
            return Ok(e.1);
        }
        i = i + 1;
    }
    if complete {
        Err(UpgradeError::NoBinaryInArchive)
    } else {
        Err(UpgradeError::Io(String::from_str("archive could not be read to its end")))
    }
}

/// Unpack a release archive: decompress it, list its tar entries and pick the
/// executable as `select_payload` does. A stream that is not valid gzip gives an
/// `Io` error.
pub fn extract_executable(archive: &[u8]) -> (r: Result<Vec<u8>, UpgradeError>)
    ensures
        match gunzipped(archive@) {
            None => r is Err && r->Err_0 is Io,
            Some(d) => selected(tar_listing(d).0, tar_listing(d).1, r),
        },
{
    match gunzip(archive) {
        None => Err(UpgradeError::Io(String::from_str("archive is not valid gzip"))),
        Some(d) => {
            let (entries, complete) = tar_entries(d.as_slice());
            select_payload(entries, complete)
        },
    }
}

} // verus!
