//! The resolved launch profiles a flavor produces and the artifacts they
//! name: what provisioning downloads and what the launch command is built from.

use vstd::prelude::*;

use crate::text::chars_of;

verus! {

/// The hash a download is checked against.
#[derive(Debug, Clone, Copy, PartialEq, Eq, Structural)]
pub enum HashAlgorithm {
    Sha1,
    Sha256,
}

/// A digest an artifact must match.
#[derive(Debug, Clone)]
pub struct Checksum {
    pub algorithm: HashAlgorithm,
    pub hex: String,
}

/// A hexadecimal digit, either case.
pub open spec fn is_hex_digit(c: char) -> bool {
    ('0' <= c <= '9') || ('a' <= c <= 'f') || ('A' <= c <= 'F')
}

/// The number of hex digits a digest of `algorithm` is written with.
pub open spec fn digest_hex_len(algorithm: HashAlgorithm) -> nat {
    match algorithm {
        HashAlgorithm::Sha1 => 40,
        HashAlgorithm::Sha256 => 64,
    }
}

impl Checksum {
    /// Whether the digest is written out in full: as many hex digits as the
    /// algorithm's digest has, and nothing else.
    pub open spec fn valid_spec(&self) -> bool {
        &&& self.hex@.len() == digest_hex_len(self.algorithm)
        &&& forall|i: int| 0 <= i < self.hex@.len() ==> is_hex_digit(#[trigger] self.hex@[i])
    }

    /// Whether the digest is written out in full.
    pub fn is_valid(&self) -> (r: bool)
        ensures
            r == self.valid_spec(),
    {
        let cs = chars_of(self.hex.as_str());
        let want: usize = match self.algorithm {
            HashAlgorithm::Sha1 => 40,
            HashAlgorithm::Sha256 => 64,
        };
        if cs.len() != want {
            return false;
        }
        let mut i: usize = 0;
        while i < cs.len()
            invariant
                cs@ == self.hex@,
                i <= cs@.len(),
                forall|j: int| 0 <= j < i ==> is_hex_digit(#[trigger] cs@[j]),
            decreases cs.len() - i,
        {
            let c = cs[i];
            if !(('0' <= c && c <= '9') || ('a' <= c && c <= 'f') || ('A' <= c && c <= 'F')) {
                return false;
            }
            i += 1;
        }
        true
    }
}

impl Checksum {
    /// A copy of this checksum.
    pub fn duplicate(&self) -> (r: Checksum)
        ensures
            r == *self,
    {
        Checksum { algorithm: self.algorithm, hex: self.hex.clone() }
    }
}

/// One downloadable file.
#[derive(Debug, Clone, Default)]
pub struct Artifact {
    pub url: String,
    pub filename: String,
    pub size: u64,
    pub checksum: Option<Checksum>,
}

impl Artifact {
    /// A copy of this artifact.
    pub fn duplicate(&self) -> (r: Artifact)
        ensures
            r == *self,
    {
        Artifact {
            url: self.url.clone(),
            filename: self.filename.clone(),
            size: self.size,
            checksum: match &self.checksum {
                Some(c) => Some(c.duplicate()),
                None => None,
            },
        }
    }
}

/// A classpath library: its Maven coordinate, its repository-relative path,
/// and where it comes from.
#[derive(Debug, Clone, Default)]
pub struct Library {
    pub name: String,
    pub path: String,
    pub artifact: Artifact,
}

impl Library {
    /// A copy of this library.
    pub fn duplicate(&self) -> (r: Library)
        ensures
            r == *self,
    {
        Library { name: self.name.clone(), path: self.path.clone(), artifact: self.artifact.duplicate() }
    }
}

/// The asset index a client version reads.
#[derive(Debug, Clone, Default)]
pub struct AssetIndex {
    pub id: String,
    pub total_size: u64,
    pub artifact: Artifact,
}

/// A native library jar and the entry prefixes not to unpack from it.
#[derive(Debug, Clone, Default)]
pub struct Native {
    pub library: Library,
    pub exclude: Vec<String>,
}

/// Everything a server launch needs.
#[derive(Debug, Clone, Default)]
pub struct ServerProfile {
    pub flavor: String,
    pub game_version: String,
    pub loader_version: Option<String>,
    pub primary: Artifact,
    pub libraries: Vec<Library>,
    pub java_major: i32,
    pub main_class: String,
    pub jvm_args: Vec<String>,
    pub args_file: String,
}

/// Everything a client launch needs.
#[derive(Debug, Clone, Default)]
pub struct InstanceProfile {
    pub flavor: String,
    pub game_version: String,
    pub loader_version: Option<String>,
    pub client: Artifact,
    pub libraries: Vec<Library>,
    pub asset_index: AssetIndex,
    pub java_major: i32,
    pub main_class: String,
    pub jvm_args: Vec<String>,
    pub game_args: Vec<String>,
}

/// An artifact with no location, no name and no checksum.
pub fn empty_artifact() -> (a: Artifact)
    ensures
        a.url@ == Seq::<char>::empty(),
        a.filename@ == Seq::<char>::empty(),
        a.size == 0,
        a.checksum is None,
{
    Artifact { url: String::new(), filename: String::new(), size: 0, checksum: None }
}

} // verus!
