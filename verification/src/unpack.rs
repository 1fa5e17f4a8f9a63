//! Taking the rustic executable out of a downloaded release archive.
use vstd::prelude::*;
use crate::download::{archive_kind, is_rustic_entry, ArchiveKind};
use crate::text::{is_suffix_of, spec_to_lowercase};

verus! {

broadcast use vstd::string::group_string_axioms;

/// The number of entries of a zip archive; `None` when the bytes are not one.
pub uninterp spec fn spec_zip_entry_count(bytes: Seq<u8>) -> Option<nat>;

/// The name of entry `index` of a zip archive; `None` when it cannot be opened.
pub uninterp spec fn spec_zip_entry_name(bytes: Seq<u8>, index: int) -> Option<Seq<char>>;

/// The unpacked contents of entry `index` of a zip archive; `None` when they
/// cannot be read.
pub uninterp spec fn spec_zip_entry_data(bytes: Seq<u8>, index: int) -> Option<Seq<u8>>;

/// The names of the entries of a gzip-compressed tar archive, in order, up
/// to the first entry (then `None`) whose header or path cannot be read;
/// `None` when the archive cannot be read at all.
pub uninterp spec fn spec_tar_gz_entry_names(bytes: Seq<u8>) -> Option<Seq<Option<Seq<char>>>>;

/// The contents of entry `index` of a gzip-compressed tar archive; `None`
/// when they cannot be read.
pub uninterp spec fn spec_tar_gz_entry_data(bytes: Seq<u8>, index: int) -> Option<Seq<u8>>;

/// The views of optional strings.
pub open spec fn opt_str_views(v: Seq<Option<String>>) -> Seq<Option<Seq<char>>> {
    Seq::new(v.len(), |i: int| match v[i] {
        Some(s) => Some(s@),
        None => None,
    })
}

/// `zip::ZipArchive::new` on the bytes, then `ZipArchive::len`.
#[verifier::external_body]
fn zip_entry_count(bytes: &Vec<u8>) -> (r: Option<usize>)
    ensures
        match r {
            Some(n) => spec_zip_entry_count(bytes@) == Some(n as nat),
            None => spec_zip_entry_count(bytes@) is None,
        },
{
    zip::ZipArchive::new(std::io::Cursor::new(bytes.as_slice())).ok().map(|z| z.len())
}

/// `zip::ZipArchive::by_index`, then `ZipFile::name`.
#[verifier::external_body]
fn zip_entry_name(bytes: &Vec<u8>, index: usize) -> (r: Option<String>)
    ensures
        match r {
            Some(s) => spec_zip_entry_name(bytes@, index as int) == Some(s@),
            None => spec_zip_entry_name(bytes@, index as int) is None,
        },
{
    let mut z = zip::ZipArchive::new(std::io::Cursor::new(bytes.as_slice())).ok()?;
    let f = z.by_index(index).ok()?;
    Some(f.name().to_string())
}

/// `zip::ZipArchive::by_index`, then reading the entry to its end.
#[verifier::external_body]
fn zip_entry_data(bytes: &Vec<u8>, index: usize) -> (r: Option<Vec<u8>>)
    ensures
        match r {
            Some(d) => spec_zip_entry_data(bytes@, index as int) == Some(d@),
            None => spec_zip_entry_data(bytes@, index as int) is None,
        },
{
    let mut z = zip::ZipArchive::new(std::io::Cursor::new(bytes.as_slice())).ok()?;
    let mut f = z.by_index(index).ok()?;
    let mut out: Vec<u8> = Vec::new();
    std::io::Read::read_to_end(&mut f, &mut out).ok()?;
    Some(out)
}

/// `tar::Archive::entries` over `flate2::read::GzDecoder`, each entry taken
/// as `Entry::path` (lossily as text), up to the first that fails.
#[verifier::external_body]
fn tar_gz_entry_names(bytes: &Vec<u8>) -> (r: Option<Vec<Option<String>>>)
    ensures
        match r {
            Some(v) => spec_tar_gz_entry_names(bytes@) == Some(opt_str_views(v@)),
            None => spec_tar_gz_entry_names(bytes@) is None,
        },
{
    let mut archive = tar::Archive::new(flate2::read::GzDecoder::new(bytes.as_slice()));
    let mut names: Vec<Option<String>> = Vec::new();
    for e in archive.entries().ok()? {
        let name = e.ok().and_then(|e| e.path().ok().map(|p| p.to_string_lossy().to_string()));
        let failed = name.is_none();
        names.push(name);
        if failed {
            break;
        }
    }
    Some(names)
}

/// `tar::Archive::entries` over `flate2::read::GzDecoder`, then reading
/// entry `index` to its end.
#[verifier::external_body]
fn tar_gz_entry_data(bytes: &Vec<u8>, index: usize) -> (r: Option<Vec<u8>>)
    ensures
        match r {
            Some(d) => spec_tar_gz_entry_data(bytes@, index as int) == Some(d@),
            None => spec_tar_gz_entry_data(bytes@, index as int) is None,
        },
{
    let mut archive = tar::Archive::new(flate2::read::GzDecoder::new(bytes.as_slice()));
    let mut entry = archive.entries().ok()?.nth(index)?.ok()?;
    let mut out: Vec<u8> = Vec::new();
    std::io::Read::read_to_end(&mut entry, &mut out).ok()?;
    Some(out)
}

/// Why the executable could not be taken out of an archive.
pub enum UnpackError {
    /// The archive cannot be read.
    BadArchive,
    /// An entry before the executable cannot be read.
    EntryUnreadable { index: usize },
    /// No entry is the executable.
    NotFound,
    /// The executable's contents cannot be read.
    ReadFailed { name: String },
    /// The asset is neither a zip nor a gzip-compressed tar archive.
    Unsupported { name: String },
}

/// Whether an entry name is that of the rustic executable.
pub open spec fn is_rustic_name(name: Seq<char>) -> bool {
    is_suffix_of("rustic.exe"@, spec_to_lowercase(name)) || name == "rustic.exe"@
}

/// Where a scan of the entries stops: the first entry that cannot be read
/// or is the executable; the number of entries when there is none.
pub open spec fn scan_stop(names: Seq<Option<Seq<char>>>, i: int) -> int
    decreases names.len() - i,
{
    if i < 0 || i >= names.len() {
        names.len() as int
    } else if names[i] is None || is_rustic_name(names[i].unwrap()) {
        i
    } else {
        scan_stop(names, i + 1)
    }
}

/// What taking the executable out gives, for entries with the names and the
/// contents read from the entry where the scan stops.
pub open spec fn unpack_outcome(names: Seq<Option<Seq<char>>>, data: Option<Seq<u8>>, r: Result<(String, Vec<u8>), UnpackError>) -> bool {
    let k = scan_stop(names, 0);
    if k >= names.len() {
        r matches Err(UnpackError::NotFound)
    } else if names[k] is None {
        r matches Err(UnpackError::EntryUnreadable { index }) && index == k
    } else {
        match data {
            Some(d) => r matches Ok((n, v)) && n@ == names[k].unwrap() && v@ == d,
            None => r matches Err(UnpackError::ReadFailed { name }) && name@ == names[k].unwrap(),
        }
    }
}

/// The zip entry names, entry by entry.
pub open spec fn zip_names(bytes: Seq<u8>, n: nat) -> Seq<Option<Seq<char>>> {
    Seq::new(n, |i: int| spec_zip_entry_name(bytes, i))
}

/// The executable in a zip archive: the first entry named like it, as its
/// name and contents.
pub fn rustic_from_zip(bytes: &Vec<u8>) -> (r: Result<(String, Vec<u8>), UnpackError>)
    ensures
        match spec_zip_entry_count(bytes@) {
            None => r matches Err(UnpackError::BadArchive),
            Some(n) => unpack_outcome(zip_names(bytes@, n), spec_zip_entry_data(bytes@, scan_stop(zip_names(bytes@, n), 0)), r),
        },
{
    let n = match zip_entry_count(bytes) {
        None => return Err(UnpackError::BadArchive),
        Some(n) => n,
    };
    let ghost names = zip_names(bytes@, n as nat);
    let mut i: usize = 0;
    while i < n
        invariant
            i <= n,
            names == zip_names(bytes@, n as nat),
            spec_zip_entry_count(bytes@) == Some(n as nat),
            scan_stop(names, 0) == scan_stop(names, i as int),
        decreases n - i,
    {
        assert(names[i as int] == spec_zip_entry_name(bytes@, i as int));
        match zip_entry_name(bytes, i) {
            None => {
                assert(scan_stop(names, i as int) == i);
                return Err(UnpackError::EntryUnreadable { index: i });
            },
            Some(name) => {
                if is_rustic_entry(name.as_str()) {
                    assert(scan_stop(names, i as int) == i);
                    return match zip_entry_data(bytes, i) {
                        Some(d) => Ok((name, d)),
                        None => Err(UnpackError::ReadFailed { name }),
                    };
                }
            },
        }
        i += 1;
    }
    Err(UnpackError::NotFound)
}

/// The executable in a gzip-compressed tar archive: the first entry named
/// like it, as its name and contents.
pub fn rustic_from_tar_gz(bytes: &Vec<u8>) -> (r: Result<(String, Vec<u8>), UnpackError>)
    ensures
        match spec_tar_gz_entry_names(bytes@) {
            None => r matches Err(UnpackError::BadArchive),
            Some(names) => unpack_outcome(names, spec_tar_gz_entry_data(bytes@, scan_stop(names, 0)), r),
        },
{
    let names = match tar_gz_entry_names(bytes) {
        None => return Err(UnpackError::BadArchive),
        Some(v) => v,
    };
    let ghost views = opt_str_views(names@);
    let mut i: usize = 0;
    while i < names.len()
        invariant
            i <= names.len(),
            views == opt_str_views(names@),
            spec_tar_gz_entry_names(bytes@) == Some(views),
            scan_stop(views, 0) == scan_stop(views, i as int),
        decreases names.len() - i,
    {
        assert(views[i as int] == match names@[i as int] {
            Some(s) => Some(s@),
            None => None::<Seq<char>>,
        });
        match &names[i] {
            None => {
                assert(scan_stop(views, i as int) == i);
                return Err(UnpackError::EntryUnreadable { index: i });
            },
            Some(name) => {
                if is_rustic_entry(name.as_str()) {
                    assert(scan_stop(views, i as int) == i);
                    return match tar_gz_entry_data(bytes, i) {
                        Some(d) => Ok((name.clone(), d)),
                        None => Err(UnpackError::ReadFailed { name: name.clone() }),
                    };
                }
            },
        }
        i += 1;
    }
    Err(UnpackError::NotFound)
}

/// The executable in a downloaded asset, by the packing its name shows.
pub fn unpack_rustic(asset_name: &str, bytes: &Vec<u8>) -> (r: Result<(String, Vec<u8>), UnpackError>)
    ensures
        archive_kind_of(asset_name@) is None ==> (r matches Err(UnpackError::Unsupported { name }) && name@ == asset_name@),
        archive_kind_of(asset_name@) == Some(ArchiveKind::Zip) ==> match spec_zip_entry_count(bytes@) {
            None => r matches Err(UnpackError::BadArchive),
            Some(n) => unpack_outcome(zip_names(bytes@, n), spec_zip_entry_data(bytes@, scan_stop(zip_names(bytes@, n), 0)), r),
        },
        archive_kind_of(asset_name@) == Some(ArchiveKind::TarGz) ==> match spec_tar_gz_entry_names(bytes@) {
            None => r matches Err(UnpackError::BadArchive),
            Some(names) => unpack_outcome(names, spec_tar_gz_entry_data(bytes@, scan_stop(names, 0)), r),
        },
{
    match archive_kind(asset_name) {
        Some(ArchiveKind::Zip) => rustic_from_zip(bytes),
        Some(ArchiveKind::TarGz) => rustic_from_tar_gz(bytes),
        None => Err(UnpackError::Unsupported { name: asset_name.to_string() }),
    }
}

/// The packing of an asset by its lower-case name.
pub open spec fn archive_kind_of(name: Seq<char>) -> Option<ArchiveKind> {
    if is_suffix_of(".zip"@, spec_to_lowercase(name)) {
        Some(ArchiveKind::Zip)
    } else if is_suffix_of(".tar.gz"@, spec_to_lowercase(name)) {
        Some(ArchiveKind::TarGz)
    } else {
        None
    }
}

} // verus!
