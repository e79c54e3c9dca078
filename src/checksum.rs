//! The single-byte integrity check of the protocol.
use vstd::prelude::*;

verus! {

/// Bitwise XOR of all bytes of `s` (zero for the empty sequence).
pub open spec fn xor_all(s: Seq<u8>) -> u8
    decreases s.len(),
{
    if s.len() == 0 {
        0u8
    } else {
        xor_all(s.drop_last()) ^ s.last()
    }
}

/// The checksum of a byte span: the complement of the XOR of its bytes.
pub open spec fn spec_checksum(s: Seq<u8>) -> u8 {
    !xor_all(s)
}

/// Computes the checksum of `data`.
pub fn checksum(data: &[u8]) -> (r: u8)
    ensures
        r == spec_checksum(data@),
{
    let mut acc: u8 = 0;
    let mut i: usize = 0;
    while i < data.len()
        invariant
            i <= data@.len(),
            acc == xor_all(data@.subrange(0, i as int)),
        decreases data@.len() - i,
    {
        assert(data@.subrange(0, i as int + 1).drop_last() =~= data@.subrange(0, i as int));
        acc = acc ^ data[i];
        i = i + 1;
    }
    assert(data@.subrange(0, i as int) =~= data@);
    !acc
}

} // verus!
