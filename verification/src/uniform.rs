use vstd::prelude::*;
use crate::buffer::{padded16, BufferBuilder};

verus! {

/// A single uniform on the gpu: its bind slot and its bytes.
pub struct UniformEntry {
    pub bind_slot: u32,
    pub data: Vec<u8>,
}

/// The bytes of a plain-data uniform, padded with zeros to a multiple of 16
/// bytes, as uniform buffers require.
pub fn pad_uniform(raw_bytes: &[u8]) -> (padded: Vec<u8>)
    ensures
        padded@ == padded16(raw_bytes@),
{
    BufferBuilder::to_padded_vec(raw_bytes)
}

} // verus!
