use vstd::prelude::*;

verus! {

/// The four bytes of `x`, least significant first.
pub open spec fn le_bytes(x: u32) -> Seq<u8> {
    seq![
        (x % 0x100) as u8,
        ((x / 0x100) % 0x100) as u8,
        ((x / 0x1_0000) % 0x100) as u8,
        ((x / 0x100_0000) % 0x100) as u8,
    ]
}

/// The four bytes of `x` in one byte order: least significant first when
/// `little`, most significant first otherwise.
pub open spec fn word_bytes(x: u32, little: bool) -> Seq<u8> {
    if little {
        le_bytes(x)
    } else {
        le_bytes(x).reverse()
    }
}

/// The bytes of the words, four per word, in the order of the words, each
/// word in the same byte order.
pub open spec fn words_bytes(words: Seq<u32>, little: bool) -> Seq<u8>
    decreases words.len(),
{
    if words.len() == 0 {
        Seq::empty()
    } else {
        words_bytes(words.drop_last(), little) + word_bytes(words.last(), little)
    }
}

/// `bytemuck::cast_slice::<u32, u8>` followed by `to_vec`: the bytes of the
/// indices, four per index, in the order of the indices, each in the
/// machine's native byte order (little or big endian, the same for all).
#[verifier::external_body]
pub(crate) fn index_bytes(indices: &[u32]) -> (bytes: Vec<u8>)
    ensures
        bytes@.len() == 4 * indices@.len(),
        exists|little: bool| bytes@ == words_bytes(indices@, little),
{
    bytemuck::cast_slice::<u32, u8>(indices).to_vec()
}

} // verus!
