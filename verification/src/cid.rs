//! Content identifiers, held in their binary encoding.

use vstd::prelude::*;

verus! {

/// A content identifier in a binary encoding from which the same
/// identifier is read back: the version, the codec and the multihash; for
/// version 0 with a SHA-256 multihash of 32 bytes, which is what every
/// deployment has, the multihash alone.
#[derive(Debug, Eq, Hash)]
pub struct Cid {
    pub bytes: Vec<u8>,
}

impl View for Cid {
    type V = Seq<u8>;

    open spec fn view(&self) -> Seq<u8> {
        self.bytes@
    }
}

impl DeepView for Cid {
    type V = Seq<u8>;

    open spec fn deep_view(&self) -> Seq<u8> {
        self.bytes@
    }
}

/// The version-0 identifier of a 32-byte SHA-256 digest: the multihash
/// header `0x12 0x20` followed by the digest.
pub open spec fn cid_v0(digest: Seq<u8>) -> Seq<u8> {
    seq![0x12u8, 0x20u8] + digest
}

/// Two digests with the same version-0 identifier are the same digest.
pub proof fn lemma_cid_v0_injective(a: Seq<u8>, b: Seq<u8>)
    requires
        cid_v0(a) == cid_v0(b),
    ensures
        a == b,
{
    assert(cid_v0(b).skip(2) =~= b);
}

/// Two deployments with the same version-0 identifier are the same
/// deployment.
pub proof fn lemma_same_cid_same_deployment(a: [u8; 32], b: [u8; 32])
    requires
        cid_v0(a@) == cid_v0(b@),
    ensures
        a == b,
{
    lemma_cid_v0_injective(a@, b@);
    assert forall|i: int| 0 <= i < 32 implies a[i] == b[i] by {
    }
}

/// The identifier under which a deployment's manifest is stored.
pub fn bytes32_to_cid_v0(bytes32: [u8; 32]) -> (cid: Cid)
    ensures
        cid@ == cid_v0(bytes32@),
{
    let mut bytes: Vec<u8> = Vec::with_capacity(34);
    bytes.push(0x12u8);
    bytes.push(0x20u8);
    let mut i: usize = 0;
    while i < 32
        invariant
            i <= 32,
            bytes@ == seq![0x12u8, 0x20u8] + bytes32@.subrange(0, i as int),
        decreases 32 - i,
    {
        bytes.push(bytes32[i]);
        i += 1;
    }
    Cid { bytes }
}

/// What `tiny_cid::Cid::from_str` reads from a text: the version of the
/// identifier as a number and what its `to_bytes` gives, or nothing where
/// the text is refused.
pub uninterp spec fn cid_of_text(text: Seq<char>) -> Option<(u64, Seq<u8>)>;

/// Whether the bytes are a SHA-256 multihash of 32 bytes.
pub open spec fn is_sha256_multihash(bytes: Seq<u8>) -> bool {
    bytes.len() == 34 && bytes[0] == 0x12 && bytes[1] == 0x20
}

/// The encoding in which an identifier is held, given its version and
/// the bytes it is written as. An identifier of version 0 is written as
/// its multihash alone; that is read back as the same identifier only for
/// a SHA-256 multihash of 32 bytes, so any other is held with version 0
/// and the codec `0x70` in front.
pub open spec fn cid_encoding(version: u64, bytes: Seq<u8>) -> Seq<u8> {
    if version == 0 && !is_sha256_multihash(bytes) {
        seq![0x00u8, 0x70u8] + bytes
    } else {
        bytes
    }
}

/// The identifier that a text names, in the encoding in which it is held.
pub open spec fn cid_of_str(text: Seq<char>) -> Option<Seq<u8>> {
    match cid_of_text(text) {
        Some((version, bytes)) => Some(cid_encoding(version, bytes)),
        None => None,
    }
}

/// How `tiny_cid::Cid` prints the identifier that `tiny_cid::Cid::try_from`
/// reads from a binary encoding; the empty text where the bytes are refused.
pub uninterp spec fn cid_text(bytes: Seq<u8>) -> Seq<char>;

/// Calls `tiny_cid::Cid::from_str` and, where it succeeds, `version` and
/// `to_bytes` on the identifier. The contract names the outcome; it claims
/// nothing of which texts are accepted.
#[verifier::external_body]
fn cid_from_str(text: &str) -> (r: Option<(u64, Vec<u8>)>)
    ensures
        r.deep_view() == cid_of_text(text@),
{
    text.parse::<tiny_cid::Cid>().ok().map(|cid| (u64::from(cid.version()), cid.to_bytes()))
}

/// Calls `tiny_cid::Cid::try_from` on the bytes and prints the identifier
/// with its `Display`. An error of `try_from` gives the empty text.
#[verifier::external_body]
fn cid_to_string(bytes: &[u8]) -> (r: String)
    ensures
        r@ == cid_text(bytes@),
{
    tiny_cid::Cid::try_from(bytes).map(|cid| cid.to_string()).unwrap_or_default()
}

impl Cid {
    /// Reads an identifier from its text form.
    pub fn parse(text: &str) -> (r: Option<Cid>)
        ensures
            r.deep_view() == cid_of_str(text@),
    {
        match cid_from_str(text) {
            Some((version, bytes)) => {
                let sha256 = bytes.len() == 34 && bytes[0] == 0x12 && bytes[1] == 0x20;
                if version == 0 && !sha256 {
                    let mut long: Vec<u8> = Vec::new();
                    long.push(0x00u8);
                    long.push(0x70u8);
                    let mut rest = bytes;
                    long.append(&mut rest);
                    assert(long@ =~= seq![0x00u8, 0x70u8] + bytes@);
                    Some(Cid { bytes: long })
                } else {
                    Some(Cid { bytes })
                }
            },
            None => None,
        }
    }

    /// The text form of the identifier: base58 for version 0, multibase
    /// base32 for version 1.
    pub fn to_text(&self) -> (r: String)
        ensures
            r@ == cid_text(self@),
    {
        cid_to_string(self.bytes.as_slice())
    }
}

impl Clone for Cid {
    fn clone(&self) -> (r: Self)
        ensures
            r@ == self@,
    {
        Cid { bytes: self.bytes.clone() }
    }
}

impl PartialEq for Cid {
    fn eq(&self, other: &Self) -> (r: bool) {
        if self.bytes.len() != other.bytes.len() {
            return false;
        }
        let mut i: usize = 0;
        while i < self.bytes.len()
            invariant
                i <= self.bytes.len(),
                self.bytes.len() == other.bytes.len(),
                self@.subrange(0, i as int) == other@.subrange(0, i as int),
            decreases self.bytes.len() - i,
        {
            if self.bytes[i] != other.bytes[i] {
                return false;
            }
            i += 1;
        }
        assert(self@ =~= self@.subrange(0, i as int));
        assert(other@ =~= other@.subrange(0, i as int));
        true
    }
}

impl vstd::std_specs::cmp::PartialEqSpecImpl for Cid {
    open spec fn obeys_eq_spec() -> bool {
        true
    }

    open spec fn eq_spec(&self, other: &Self) -> bool {
        self@ == other@
    }
}

} // verus!
