//! A test on the bytes of a link, made before it is handed to the parser
//! of identifiers.

use vstd::prelude::*;

verus! {

/// Whether the six bytes from `i` on spell `/ipfs/`.
pub open spec fn ipfs_path_at(bytes: Seq<u8>, i: int) -> bool {
    0 <= i && i + 6 <= bytes.len() && bytes[i] == 0x2f && bytes[i + 1] == 0x69 && bytes[i + 2]
        == 0x70 && bytes[i + 3] == 0x66 && bytes[i + 4] == 0x73 && bytes[i + 5] == 0x2f
}

/// Whether the bytes spell `/ipfs/` somewhere.
pub open spec fn holds_ipfs_path(bytes: Seq<u8>) -> bool {
    exists|i: int| #[trigger] ipfs_path_at(bytes, i)
}

/// Whether the bytes spell `/ipfs/` somewhere.
pub fn has_ipfs_path(bytes: &[u8]) -> (r: bool)
    ensures
        r == holds_ipfs_path(bytes@),
{
    if bytes.len() < 6 {
        return false;
    }
    let last = bytes.len() - 6;
    let mut i: usize = 0;
    while i <= last
        invariant
            i <= last + 1,
            last + 6 == bytes.len(),
            forall|p: int| p < i ==> !#[trigger] ipfs_path_at(bytes@, p),
        decreases last + 1 - i,
    {
        if bytes[i] == 0x2f && bytes[i + 1] == 0x69 && bytes[i + 2] == 0x70 && bytes[i + 3] == 0x66
            && bytes[i + 4] == 0x73 && bytes[i + 5] == 0x2f {
            assert(ipfs_path_at(bytes@, i as int));
            return true;
        }
        i += 1;
    }
    false
}

} // verus!
