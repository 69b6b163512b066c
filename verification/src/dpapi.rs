use vstd::prelude::*;

verus! {

/// Each byte of `data` masked with `0x5A`.
pub open spec fn masked(data: Seq<u8>) -> Seq<u8> {
    Seq::new(data.len(), |i: int| data[i] ^ 0x5Au8)
}

fn mask(data: &[u8]) -> (r: Vec<u8>)
    ensures
        r@ == masked(data@),
{
    let mut r: Vec<u8> = Vec::new();
    let mut i: usize = 0;
    while i < data.len()
        invariant
            i <= data@.len(),
            r@.len() == i,
            forall|k: int| 0 <= k < i ==> #[trigger] r@[k] == data@[k] ^ 0x5Au8,
        decreases data.len() - i,
    {
        r.push(data[i] ^ 0x5Au8);
        i = i + 1;
    }
    assert(r@ =~= masked(data@));
    r
}

/// Obfuscates vault bytes on hosts without the Windows data-protection API
/// (each byte masked with `0x5A`).
pub fn encrypt_bytes(data: &[u8]) -> (r: Vec<u8>)
    ensures
        r@ == masked(data@),
{
    mask(data)
}

/// Reverses `encrypt_bytes` (the same masking).
pub fn decrypt_bytes(encrypted_data: &[u8]) -> (r: Vec<u8>)
    ensures
        r@ == masked(encrypted_data@),
{
    mask(encrypted_data)
}

/// Decrypting what was encrypted gives the bytes back, and encryption
/// changes every byte.
pub proof fn lemma_mask_roundtrip(data: Seq<u8>)
    ensures
        masked(masked(data)) == data,
        forall|i: int| 0 <= i < data.len() ==> #[trigger] masked(data)[i] != data[i],
{
    assert forall|i: int| 0 <= i < data.len() implies #[trigger] masked(masked(data))[i] == data[i]
        && masked(data)[i] != data[i] by {
        let b = data[i];
        assert((b ^ 0x5Au8) ^ 0x5Au8 == b && b ^ 0x5Au8 != b) by (bit_vector);
    }
    assert(masked(masked(data)) =~= data);
}

} // verus!
