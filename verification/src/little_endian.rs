//! Little-endian words of the `byteorder` crate, as the library uses them.
use crate::float_bits::word_at;
use byteorder::{ByteOrder, LittleEndian, ReadBytesExt};
use vstd::prelude::*;

verus! {

/// Calls `byteorder::ReadBytesExt::read_u32` with `LittleEndian` on the bytes from `at` on: the
/// first four bytes, low byte first, or nothing if there are fewer.
#[verifier::external_body]
pub(crate) fn next_u32(bytes: &[u8], at: usize) -> (word: Option<u32>)
    requires
        at <= bytes.len(),
    ensures
        match word {
            Some(w) => at + 4 <= bytes.len() && w == word_at(bytes@, at as int),
            None => at + 4 > bytes.len(),
        },
{
    let mut rest = &bytes[at..];
    rest.read_u32::<LittleEndian>().ok()
}

/// Calls `byteorder::LittleEndian::read_u32_into`: one word for each four bytes, low byte first.
#[verifier::external_body]
pub(crate) fn words_of(bytes: &[u8]) -> (words: Vec<u32>)
    requires
        bytes.len() % 4 == 0,
    ensures
        words.len() == bytes.len() / 4,
        forall|i: int| 0 <= i < words.len() ==> #[trigger] words@[i] == word_at(bytes@, 4 * i),
{
    let mut words = vec![0u32; bytes.len() / 4];
    LittleEndian::read_u32_into(bytes, &mut words);
    words
}

} // verus!
