//! What the launcher takes out of a NeoForge installer jar: its launch
//! profile, its install profile and the `data/` entries the processors
//! address, each entry size-capped since the jar comes over the network.
//! The archive is read by `zip`; the JSON documents are parsed by the caller.

use vstd::prelude::*;

use std::io::Read;

use crate::text::{chars_of, ends_with, ends_with_str, starts_with, starts_with_str, str_eq};

verus! {

/// The largest entry read out of an installer: 64 MiB.
pub const MAX_ENTRY: u64 = 67108864;

/// How many entries `zip` reads in an archive's central directory, `None`
/// when it refuses the bytes as a zip.
pub uninterp spec fn zip_entry_count(bytes: Seq<u8>) -> Option<nat>;

/// Entry `index`'s name, whether it is a plain file, and its uncompressed
/// size, as `zip` reads them; `None` when it cannot open that entry.
pub uninterp spec fn zip_meta(bytes: Seq<u8>, index: nat) -> Option<(Seq<char>, bool, u64)>;

/// Entry `index`'s content as `zip` decompresses it; `None` when it fails.
pub uninterp spec fn zip_content(bytes: Seq<u8>, index: nat) -> Option<Seq<u8>>;

/// zip's `ZipArchive::new` over the bytes, then its `len`: the number of
/// entries, or `None` for its error.
#[verifier::external_body]
pub(crate) fn zip_open(bytes: &[u8]) -> (r: Option<usize>)
    ensures
        r matches Some(n) ==> zip_entry_count(bytes@) == Some(n as nat),
        r is None ==> zip_entry_count(bytes@) is None,
{
    match zip::ZipArchive::new(std::io::Cursor::new(bytes)) {
        Ok(archive) => Some(archive.len()),
        Err(_) => None,
    }
}

/// zip's `by_index` on a freshly opened archive, then the entry's `name`,
/// `is_file` and `size`; `None` for either call's error.
#[verifier::external_body]
pub(crate) fn zip_entry_meta(bytes: &[u8], index: usize) -> (r: Option<(String, bool, u64)>)
    ensures
        r matches Some(m) ==> zip_meta(bytes@, index as nat) == Some((m.0@, m.1, m.2)),
        r is None ==> zip_meta(bytes@, index as nat) is None,
{
    let mut archive = zip::ZipArchive::new(std::io::Cursor::new(bytes)).ok()?;
    let entry = archive.by_index(index).ok()?;
    Some((entry.name().to_string(), entry.is_file(), entry.size()))
}

/// zip's `by_index` on a freshly opened archive, read to its end: the
/// entry's content, or `None` for an error.
#[verifier::external_body]
pub(crate) fn zip_entry_bytes(bytes: &[u8], index: usize) -> (r: Option<Vec<u8>>)
    ensures
        r matches Some(c) ==> zip_content(bytes@, index as nat) == Some(c@),
        r is None ==> zip_content(bytes@, index as nat) is None,
{
    let mut archive = zip::ZipArchive::new(std::io::Cursor::new(bytes)).ok()?;
    let mut entry = archive.by_index(index).ok()?;
    let mut out = Vec::new();
    entry.read_to_end(&mut out).ok()?;
    Some(out)
}

/// Why an installer's payload could not be read.
#[derive(Debug, Clone, PartialEq, Eq)]
pub enum InstallerError {
    /// The bytes are not a readable zip.
    NotAZip,
    /// An entry could not be opened or decompressed; it carries the index.
    Unreadable(usize),
    /// The installer lacks `version.json`.
    NoVersion,
    /// The installer lacks `install_profile.json`.
    NoProfile,
}

/// The raw documents and data entries of an installer.
#[derive(Debug, Clone)]
pub struct InstallerFiles {
    /// `version.json`: the launch profile to merge over the base game.
    pub version: Vec<u8>,
    /// `install_profile.json`: libraries, processors and the data table.
    pub profile: Vec<u8>,
    /// The entries under `data/`, by archive-relative name, in archive order.
    pub data: Vec<(String, Vec<u8>)>,
}

/// Whether an entry of this name is one the install needs.
pub open spec fn wanted(name: Seq<char>) -> bool {
    name == "version.json"@ || name == "install_profile.json"@ || (starts_with(name, "data/"@) && !ends_with(
        name,
        "/"@,
    ))
}

/// Whether entry metadata passes the read: a plain file within the cap,
/// named as one the install needs.
pub open spec fn taken(meta: (Seq<char>, bool, u64)) -> bool {
    meta.1 && meta.2 <= MAX_ENTRY && wanted(meta.0)
}

/// The scan of the first `n` entries: the last `version.json` and
/// `install_profile.json` read, and the `data/` entries in order; or the
/// first entry that could not be read.
pub open spec fn scan(bytes: Seq<u8>, n: nat) -> Result<(Option<Seq<u8>>, Option<Seq<u8>>, Seq<(Seq<char>, Seq<u8>)>), usize>
    decreases n,
{
    if n == 0 {
        Ok((None, None, Seq::empty()))
    } else {
        match scan(bytes, (n - 1) as nat) {
            Err(i) => Err(i),
            Ok((v, p, d)) => match zip_meta(bytes, (n - 1) as nat) {
                None => Err((n - 1) as usize),
                Some(meta) => if !taken(meta) {
                    Ok((v, p, d))
                } else {
                    match zip_content(bytes, (n - 1) as nat) {
                        None => Err((n - 1) as usize),
                        Some(c) => if meta.0 == "version.json"@ {
                            Ok((Some(c), p, d))
                        } else if meta.0 == "install_profile.json"@ {
                            Ok((v, Some(c), d))
                        } else {
                            Ok((v, p, d.push((meta.0, c))))
                        },
                    }
                },
            },
        }
    }
}

proof fn lemma_scan_err_persists(bytes: Seq<u8>, k: nat, m: nat)
    requires
        k <= m,
        scan(bytes, k) is Err,
    ensures
        scan(bytes, m) == scan(bytes, k),
    decreases m - k,
{
    if k < m {
        lemma_scan_err_persists(bytes, k, (m - 1) as nat);
    }
}

fn is_wanted(name: &str) -> (r: bool)
    ensures
        r == wanted(name@),
{
    let cs = chars_of(name);
    str_eq(name, "version.json") || str_eq(name, "install_profile.json") || (starts_with_str(&cs, "data/")
        && !ends_with_str(&cs, "/"))
}

/// The payload of an installer jar: `version.json`, `install_profile.json`
/// and every `data/` file, skipping directories and links, entries over the
/// cap and any other name. Refused when the bytes are no zip, when a needed
/// entry cannot be read, or when either document is missing.
pub fn installer_files(bytes: &[u8]) -> (r: Result<InstallerFiles, InstallerError>)
    ensures
        zip_entry_count(bytes@) is None ==> r == Err::<InstallerFiles, InstallerError>(InstallerError::NotAZip),
        zip_entry_count(bytes@) matches Some(n) ==> match scan(bytes@, n) {
            Err(i) => r == Err::<InstallerFiles, InstallerError>(InstallerError::Unreadable(i)),
            Ok((v, p, d)) => match (v, p) {
                (None, _) => r == Err::<InstallerFiles, InstallerError>(InstallerError::NoVersion),
                (Some(_), None) => r == Err::<InstallerFiles, InstallerError>(InstallerError::NoProfile),
                (Some(vc), Some(pc)) => r matches Ok(f) && f.version@ == vc && f.profile@ == pc
                    && f.data@.map_values(|e: (String, Vec<u8>)| (e.0@, e.1@)) == d,
            },
        },
{
    let n = match zip_open(bytes) {
        Some(n) => n,
        None => return Err(InstallerError::NotAZip),
    };
    let mut version: Option<Vec<u8>> = None;
    let mut profile: Option<Vec<u8>> = None;
    let mut data: Vec<(String, Vec<u8>)> = Vec::new();
    let mut i: usize = 0;
    while i < n
        invariant
            zip_entry_count(bytes@) == Some(n as nat),
            i <= n,
            scan(bytes@, i as nat) matches Ok((v, p, d)) && (match version {
                Some(x) => v == Some(x@),
                None => v is None,
            }) && (match profile {
                Some(x) => p == Some(x@),
                None => p is None,
            }) && data@.map_values(|e: (String, Vec<u8>)| (e.0@, e.1@)) == d,
        decreases n - i,
    {
        let meta = match zip_entry_meta(bytes, i) {
            Some(m) => m,
            None => {
                proof {
                    assert(scan(bytes@, (i + 1) as nat) == Err::<(Option<Seq<u8>>, Option<Seq<u8>>, Seq<(Seq<char>, Seq<u8>)>), usize>(i));
                    lemma_scan_err_persists(bytes@, (i + 1) as nat, n as nat);
                }
                return Err(InstallerError::Unreadable(i));
            },
        };
        let (name, is_file, size) = meta;
        if is_file && size <= MAX_ENTRY && is_wanted(name.as_str()) {
            let content = match zip_entry_bytes(bytes, i) {
                Some(c) => c,
                None => {
                    proof {
                        assert(scan(bytes@, (i + 1) as nat) == Err::<(Option<Seq<u8>>, Option<Seq<u8>>, Seq<(Seq<char>, Seq<u8>)>), usize>(i));
                        lemma_scan_err_persists(bytes@, (i + 1) as nat, n as nat);
                    }
                    return Err(InstallerError::Unreadable(i));
                },
            };
            if str_eq(name.as_str(), "version.json") {
                version = Some(content);
            } else if str_eq(name.as_str(), "install_profile.json") {
                profile = Some(content);
            } else {
                let ghost before = data@.map_values(|e: (String, Vec<u8>)| (e.0@, e.1@));
                let ghost entry = (name@, content@);
                data.push((name, content));
                assert(data@.map_values(|e: (String, Vec<u8>)| (e.0@, e.1@)) =~= before.push(entry));
            }
        }
        i += 1;
    }
    let version = match version {
        Some(v) => v,
        None => return Err(InstallerError::NoVersion),
    };
    let profile = match profile {
        Some(p) => p,
        None => return Err(InstallerError::NoProfile),
    };
    Ok(InstallerFiles { version, profile, data })
}

} // verus!
