//! Copying into and out of flat byte storage.
use vstd::prelude::*;

verus! {

/// `data` with the bytes from `start` on replaced by `part`.
pub open spec fn spliced(data: Seq<u8>, start: int, part: Seq<u8>) -> Seq<u8> {
    Seq::new(
        data.len(),
        |i: int|
            if start <= i < start + part.len() {
                part[i - start]
            } else {
                data[i]
            },
    )
}

/// Overwrites the bytes from `start` on with `part`.
pub fn splice(data: &mut Vec<u8>, start: usize, part: &Vec<u8>)
    requires
        start + part.len() <= old(data).len(),
    ensures
        final(data)@ == spliced(old(data)@, start as int, part@),
{
    let ghost before = data@;
    let mut i: usize = 0;
    while i < part.len()
        invariant
            i <= part.len(),
            start + part.len() <= data.len(),
            data.len() == before.len(),
            forall|j: int|
                0 <= j < before.len() ==> #[trigger] data@[j] == if start <= j < start + i {
                    part@[j - start]
                } else {
                    before[j]
                },
        decreases part.len() - i,
    {
        data.set(start + i, part[i]);
        i += 1;
    }
    assert(data@ =~= spliced(before, start as int, part@));
}

/// A copy of `len` bytes from `start` on.
pub fn copy_range(data: &Vec<u8>, start: usize, len: usize) -> (part: Vec<u8>)
    requires
        start + len <= data.len(),
    ensures
        part@ == data@.subrange(start as int, start + len),
{
    let mut part: Vec<u8> = Vec::new();
    let mut i: usize = 0;
    while i < len
        invariant
            i <= len,
            start + len <= data.len(),
            part@ == data@.subrange(start as int, start + i),
        decreases len - i,
    {
        part.push(data[start + i]);
        i += 1;
        assert(part@ =~= data@.subrange(start as int, start + i));
    }
    part
}

/// What was spliced in is read back, and everything else is left alone.
pub proof fn spliced_reads_back(data: Seq<u8>, start: int, part: Seq<u8>, other: int, len: int)
    requires
        0 <= start,
        start + part.len() <= data.len(),
        0 <= other,
        0 <= len,
        other + len <= data.len(),
        other + len <= start || start + part.len() <= other,
    ensures
        spliced(data, start, part).subrange(start, start + part.len()) == part,
        spliced(data, start, part).subrange(other, other + len) == data.subrange(
            other,
            other + len,
        ),
{
    assert(spliced(data, start, part).subrange(start, start + part.len()) =~= part);
    assert(spliced(data, start, part).subrange(other, other + len) =~= data.subrange(
        other,
        other + len,
    ));
}

} // verus!
