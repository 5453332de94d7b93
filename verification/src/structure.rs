//! Store layout and identity hashing.
//!
//! An application instance is identified by a fixed-length lowercase
//! hexadecimal key: the SHA3-256 digest of either the canonical string form
//! of its executable path or a namespaced identifier string. The key names
//! the application's shadow directory, so equal inputs must always yield
//! equal keys.

use crate::entries::{has_entry, DirEntry};
use sha3::Digest;
use vstd::prelude::*;
use vstd::string::StringExecFns;

verus! {

/// SHA3-256 digest of a byte sequence. The digest is a pure function of the
/// input bytes; its value is left abstract here.
pub uninterp spec fn sha3_256_of(bytes: Seq<u8>) -> Seq<u8>;

/// Relies on sha3::Sha3_256 (through the Digest trait): the SHA3-256 digest
/// of the input bytes, a function of those bytes alone, 32 bytes long.
#[verifier::external_body]
fn sha3_256_digest(data: &[u8]) -> (r: Vec<u8>)
    ensures
        r@ == sha3_256_of(data@),
        r@.len() == 32,
{
    sha3::Sha3_256::digest(data).to_vec()
}

/// The sixteen lowercase hexadecimal digits, least value first.
pub open spec fn hex_digits() -> Seq<char> {
    "0123456789abcdef"@
}

/// Lowercase hexadecimal encoding of a byte sequence: two digits per byte,
/// high nibble first.
pub open spec fn hex_lower(bytes: Seq<u8>) -> Seq<char>
    decreases bytes.len(),
{
    if bytes.len() == 0 {
        Seq::empty()
    } else {
        seq![
            hex_digits()[(bytes.first() / 16) as int],
            hex_digits()[(bytes.first() % 16) as int],
        ] + hex_lower(bytes.drop_first())
    }
}

/// Relies on hex::encode: the lowercase hexadecimal encoding of the input,
/// two digits per byte, high nibble first.
#[verifier::external_body]
fn hex_encode(data: &[u8]) -> (r: String)
    ensures
        r@ == hex_lower(data@),
{
    hex::encode(data)
}

/// Hexadecimal encoding yields exactly two digits per byte.
pub proof fn lemma_hex_lower_len(bytes: Seq<u8>)
    ensures
        hex_lower(bytes).len() == 2 * bytes.len(),
    decreases bytes.len(),
{
    if bytes.len() > 0 {
        lemma_hex_lower_len(bytes.drop_first());
    }
}

/// Every character of a hexadecimal encoding is one of the sixteen digits.
pub proof fn lemma_hex_lower_digits(bytes: Seq<u8>)
    ensures
        forall|j: int|
            0 <= j < hex_lower(bytes).len() ==> hex_digits().contains(#[trigger] hex_lower(
                bytes,
            )[j]),
    decreases bytes.len(),
{
    reveal_strlit("0123456789abcdef");
    if bytes.len() > 0 {
        lemma_hex_lower_digits(bytes.drop_first());
        let whole = hex_lower(bytes);
        let rest = hex_lower(bytes.drop_first());
        assert(hex_digits().len() == 16);
        assert forall|j: int| 0 <= j < whole.len() implies hex_digits().contains(
            #[trigger] whole[j],
        ) by {
            if j == 0 {
                let d = (bytes.first() / 16) as int;
                assert(whole[j] == hex_digits()[d]);
            } else if j == 1 {
                let d = (bytes.first() % 16) as int;
                assert(whole[j] == hex_digits()[d]);
            } else {
                assert(whole[j] == rest[j - 2]);
            }
        }
    }
}

/// The identity key derived from a string: the lowercase hexadecimal form of
/// the SHA3-256 digest of the string's UTF-8 bytes.
pub open spec fn identity_key(s: Seq<char>) -> Seq<char> {
    hex_lower(sha3_256_of(vstd::utf8::encode_utf8(s)))
}

fn get_hash(x: &str) -> (r: String)
    ensures
        r@ == identity_key(x@),
        r@.len() == 64,
        forall|j: int| 0 <= j < r@.len() ==> hex_digits().contains(#[trigger] r@[j]),
{
    let digest = sha3_256_digest(x.as_bytes());
    proof {
        lemma_hex_lower_len(digest@);
        lemma_hex_lower_digits(digest@);
    }
    hex_encode(digest.as_slice())
}

/// Identity key for a path-addressed target: the digest of the canonical
/// path string itself, always 64 lowercase hexadecimal digits. Callers
/// canonicalize first; no further normalization happens here.
pub fn get_path_hash(path: &str) -> (r: String)
    ensures
        r@ == identity_key(path@),
        r@.len() == 64,
        forall|j: int| 0 <= j < r@.len() ==> hex_digits().contains(#[trigger] r@[j]),
{
    get_hash(path)
}

/// Identity key for a flatpak-addressed target: the digest of the identifier
/// behind the fixed namespace prefix, so path keys and flatpak keys cannot
/// be confused for one another by accident. Always 64 lowercase hexadecimal
/// digits.
pub fn get_flatpak_hash(id: &str) -> (r: String)
    ensures
        r@ == identity_key("flatpak:"@ + id@),
        r@.len() == 64,
        forall|j: int| 0 <= j < r@.len() ==> hex_digits().contains(#[trigger] r@[j]),
{
    let prefixed = String::from_str("flatpak:").concat(id);
    get_hash(prefixed.as_str())
}

/// Locates the shared runtime directory beneath the store root: the entry
/// named `electron`. The caller hands in the store root's listing; `None`
/// means the runtime is not installed, a fatal condition for a build since
/// there is nothing to link against.
pub fn get_electron_dir(chroma_dir: &str, chroma_entries: &Vec<DirEntry>) -> (r: Option<String>)
    ensures
        match r {
            Some(p) => has_entry(chroma_entries.deep_view(), "electron"@) && p@ == chroma_dir@
                + "electron"@,
            None => !has_entry(chroma_entries.deep_view(), "electron"@),
        },
{
    let needle = String::from_str("electron");
    let n = chroma_entries.len();
    let mut i: usize = 0;
    while i < n
        invariant
            i <= n,
            n == chroma_entries@.len(),
            needle@ == "electron"@,
            forall|j: int| 0 <= j < i ==> #[trigger] chroma_entries.deep_view()[j].name
                != "electron"@,
        decreases n - i,
    {
        if chroma_entries[i].name == needle {
            proof {
                assert(chroma_entries.deep_view()[i as int].name == "electron"@);
            }
            return Some(String::from_str(chroma_dir).concat("electron"));
        }
        i += 1;
    }
    None
}

/// Determinism of identity: equal input strings always yield equal identity
/// keys, byte for byte.
pub proof fn lemma_identity_deterministic(a: Seq<char>, b: Seq<char>)
    requires
        a == b,
    ensures
        identity_key(a) == identity_key(b),
{
}

} // verus!
