//! The last good copy of a catalogue response, kept under the data home and
//! keyed by the SHA-256 of its URL.

use vstd::prelude::*;

use sha2::Digest;

use crate::launch::{join_str, path_join};
use vstd::string::StringSliceAdditionalSpecFns;

use crate::text::{push_str, string_of};

verus! {

/// The SHA-256 digest of `data`.
pub uninterp spec fn sha256(data: Seq<u8>) -> Seq<u8>;

/// The SHA-256 digest of `data` (sha2's `Sha256::digest`): 32 bytes.
#[verifier::external_body]
fn sha256_digest(data: &[u8]) -> (r: Vec<u8>)
    ensures
        r@ == sha256(data@),
        r@.len() == 32,
{
    sha2::Sha256::digest(data).to_vec()
}

/// A lower-case hex digit.
pub open spec fn hex_digit(n: int) -> char {
    if n < 10 {
        (n + 48) as char
    } else {
        (n - 10 + 97) as char
    }
}

/// `bytes` in lower-case hex, two digits per byte.
pub open spec fn hex(bytes: Seq<u8>) -> Seq<char>
    decreases bytes.len(),
{
    if bytes.len() == 0 {
        Seq::empty()
    } else {
        hex(bytes.drop_last()) + seq![hex_digit(bytes.last() as int / 16), hex_digit(bytes.last() as int % 16)]
    }
}

fn hex_char(n: u8) -> (c: char)
    requires
        n < 16,
    ensures
        c == hex_digit(n as int),
{
    if n < 10 {
        (n + 48) as char
    } else {
        (n - 10 + 97) as char
    }
}

/// `bytes` in lower-case hex.
pub fn encode(bytes: &[u8]) -> (r: String)
    ensures
        r@ == hex(bytes@),
{
    let mut out: Vec<char> = Vec::new();
    let mut i: usize = 0;
    while i < bytes.len()
        invariant
            i <= bytes@.len(),
            out@ == hex(bytes@.take(i as int)),
        decreases bytes.len() - i,
    {
        let b = bytes[i];
        assert(bytes@.take(i + 1).drop_last() =~= bytes@.take(i as int));
        let ghost before = out@;
        out.push(hex_char(b / 16));
        out.push(hex_char(b % 16));
        assert(out@ =~= before + seq![hex_digit(b as int / 16), hex_digit(b as int % 16)]);
        i += 1;
    }
    assert(bytes@.take(bytes@.len() as int) =~= bytes@);
    string_of(&out)
}

/// Where cached catalogue documents are kept, once the data home is known.
#[derive(Debug, Clone, Default)]
pub struct Store {
    pub root: Option<String>,
}

/// Point the store at the running data home.
pub fn set_root(store: &mut Store, dir: String)
    ensures
        final(store).root == Some(dir),
{
    store.root = Some(dir);
}

impl Store {
    /// The file a URL's cached copy lives in: the hex SHA-256 of the URL
    /// with `.json`, under the root; `None` before a root is set.
    pub fn entry_path(&self, url: &str) -> (r: Option<String>)
        ensures
            self.root is None ==> r is None,
            self.root matches Some(dir) ==> (r matches Some(p) && p@ == path_join(dir@, hex(sha256(url.spec_bytes())) + ".json"@)),
    {
        match &self.root {
            None => None,
            Some(dir) => {
                let digest = sha256_digest(url.as_bytes());
                let name = encode(digest.as_slice());
                let mut file: Vec<char> = Vec::new();
                push_str(&mut file, name.as_str());
                push_str(&mut file, ".json");
                let f = string_of(&file);
                Some(join_str(dir.as_str(), f.as_str()))
            },
        }
    }
}

} // verus!
