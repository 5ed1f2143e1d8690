//! A quantized tensor as one record of bytes: version, format, sizes, shape, blocks, and the
//! bias at the end.
use crate::float_bits::{le_word, word_at};
use crate::gguf::types::{ggml_dtype_from_uqff, is_code, GgmlDType};
use crate::isq::IsqType;
use crate::little_endian::next_u32;
use crate::tensor::first_fault;
use vstd::prelude::*;

verus! {

pub const UQFF_VERSION_MAJOR: u32 = 1;

/// The version that records are written in: 1.3.0.
pub const UQFF_VERSION: u32 = 0x0001_0300;

/// The number of the format of block quantizations.
pub const UQFF_GGUF: u8 = 0;

/// Why a record is refused.
#[derive(Clone, Copy, Debug, PartialEq, Eq, Structural)]
pub enum RecordError {
    /// The record ends too early.
    Truncated,
    /// The record was written in another major version.
    Version { version: u32 },
    /// The record has another format.
    Format { format: u8 },
    /// There is no element type of this number.
    Dtype { code: u32 },
    /// The blocks extend past the end of the record.
    DataLength { data_len: usize },
    /// The element type is no quantization.
    Unquantized { dtype: GgmlDType },
    /// The bias has no element type of this number.
    BiasDtype { code: u32 },
}

/// What a record says of itself, and where its parts are.
#[derive(Clone, Debug)]
pub struct GgufRecord {
    pub dtype: GgmlDType,
    pub dims: Vec<usize>,
    pub has_bias: bool,
    pub data_offset: usize,
    pub data_len: usize,
}

/// Whether a record of a version can be read: the major versions agree.
pub open spec fn is_compatible(version: int) -> bool {
    version / 65536 == UQFF_VERSION_MAJOR
}

/// Whether a record of a version can be read.
pub fn version_is_compatible(version: u32) -> (yes: bool)
    ensures
        yes == is_compatible(version as int),
{
    version / 65536 == UQFF_VERSION_MAJOR
}

/// What is wrong with the beginning of a record, up to its element type.
pub open spec fn format_fault(bytes: Seq<u8>) -> Option<RecordError> {
    if bytes.len() < 4 {
        Some(RecordError::Truncated)
    } else if !is_compatible(word_at(bytes, 0)) {
        Some(RecordError::Version { version: word_at(bytes, 0) as u32 })
    } else if bytes.len() < 5 {
        Some(RecordError::Truncated)
    } else if bytes[4] != UQFF_GGUF {
        Some(RecordError::Format { format: bytes[4] })
    } else if bytes.len() < 14 {
        Some(RecordError::Truncated)
    } else if !is_code(word_at(bytes, 10) as u32) {
        Some(RecordError::Dtype { code: word_at(bytes, 10) as u32 })
    } else {
        None
    }
}

/// What is wrong with the shape and the sizes of a record.
pub open spec fn size_fault(bytes: Seq<u8>) -> Option<RecordError> {
    let data_len = word_at(bytes, 5);
    if bytes.len() < 18 || bytes.len() < 18 + 4 * word_at(bytes, 14) {
        Some(RecordError::Truncated)
    } else if 18 + 4 * word_at(bytes, 14) + data_len > bytes.len() {
        Some(RecordError::DataLength { data_len: data_len as usize })
    } else {
        None
    }
}

/// What is wrong with a record, in the order in which it is looked at.
pub open spec fn record_fault(bytes: Seq<u8>) -> Option<RecordError> {
    first_fault(format_fault(bytes), size_fault(bytes))
}

/// Whether this is what a record says of itself.
pub open spec fn describes(bytes: Seq<u8>, record: GgufRecord) -> bool {
    let n = word_at(bytes, 14);
    &&& record.dtype.code() == word_at(bytes, 10)
    &&& record.dims@.len() == n
    &&& forall|i: int| 0 <= i < n ==> #[trigger] record.dims@[i] == word_at(bytes, 18 + 4 * i)
    &&& record.has_bias == (bytes[9] != 0)
    &&& record.data_offset == 18 + 4 * n
    &&& record.data_len == word_at(bytes, 5)
}

pub(crate) fn word(bytes: &[u8], at: usize) -> (word: Result<u32, RecordError>)
    requires
        at <= bytes.len(),
    ensures
        match word {
            Ok(w) => at + 4 <= bytes.len() && w == word_at(bytes@, at as int),
            Err(e) => at + 4 > bytes.len() && e == RecordError::Truncated,
        },
{
    match next_u32(bytes, at) {
        Some(w) => Ok(w),
        None => Err(RecordError::Truncated),
    }
}

fn byte(bytes: &[u8], at: usize) -> (byte: Result<u8, RecordError>)
    ensures
        match byte {
            Ok(b) => at < bytes.len() && b == bytes@[at as int],
            Err(e) => at >= bytes.len() && e == RecordError::Truncated,
        },
{
    if at < bytes.len() {
        Ok(bytes[at])
    } else {
        Err(RecordError::Truncated)
    }
}

/// Reads the beginning of a record: the length of its blocks, whether there is a bias, and the
/// element type.
fn read_format(bytes: &[u8]) -> (format: Result<(u32, bool, GgmlDType), RecordError>)
    ensures
        match format {
            Ok((data_len, has_bias, dtype)) => {
                &&& format_fault(bytes@) is None
                &&& data_len == word_at(bytes@, 5)
                &&& has_bias == (bytes@[9] != 0)
                &&& dtype.code() == word_at(bytes@, 10)
            },
            Err(e) => format_fault(bytes@) == Some(e),
        },
{
    let version: u32 = word(bytes, 0)?;
    if !version_is_compatible(version) {
        return Err(RecordError::Version { version });
    }
    let format: u8 = byte(bytes, 4)?;
    if format != UQFF_GGUF {
        return Err(RecordError::Format { format });
    }
    let data_len: u32 = word(bytes, 5)?;
    let has_bias: bool = byte(bytes, 9)? != 0;
    let code: u32 = word(bytes, 10)?;
    match ggml_dtype_from_uqff(code) {
        Some(dtype) => Ok((data_len, has_bias, dtype)),
        None => Err(RecordError::Dtype { code }),
    }
}

/// Reads what a record says of itself.
pub fn read_record(bytes: &[u8]) -> (record: Result<GgufRecord, RecordError>)
    ensures
        match record {
            Ok(r) => {
                &&& record_fault(bytes@) is None
                &&& describes(bytes@, r)
                &&& r.data_offset + r.data_len <= bytes@.len()
            },
            Err(e) => record_fault(bytes@) == Some(e),
        },
{
    let (data_len, has_bias, dtype) = read_format(bytes)?;
    let n: u32 = word(bytes, 14)?;
    let mut dims: Vec<usize> = Vec::new();
    let mut at: usize = 18;
    let mut i: u32 = 0;
    while i < n
        invariant
            i <= n,
            bytes@.len() >= 18,
            format_fault(bytes@) is None,
            n == word_at(bytes@, 14),
            at == 18 + 4 * i,
            at <= bytes@.len(),
            dims@.len() == i,
            forall|j: int| 0 <= j < i ==> #[trigger] dims@[j] == word_at(bytes@, 18 + 4 * j),
        decreases n - i,
    {
        let dim: u32 = word(bytes, at)?;
        dims.push(dim as usize);
        at = at + 4;
        i += 1;
    }
    let len: usize = data_len as usize;
    if len > bytes.len() - at {
        return Err(RecordError::DataLength { data_len: len });
    }
    Ok(GgufRecord { dtype, dims, has_bias, data_offset: at, data_len: len })
}

/// The quantization of a record.
pub fn get_isq_type_from_uqff(bytes: &[u8]) -> (isq: Result<IsqType, RecordError>)
    ensures
        match isq {
            Ok(isq) => {
                &&& format_fault(bytes@) is None
                &&& GgmlDType::of_isq(isq) is Some
                &&& GgmlDType::of_isq(isq)->0.code() == word_at(bytes@, 10)
            },
            Err(RecordError::Unquantized { dtype }) => {
                &&& format_fault(bytes@) is None
                &&& dtype.code() == word_at(bytes@, 10)
                &&& dtype == GgmlDType::F32 || dtype == GgmlDType::F16 || dtype == GgmlDType::BF16
            },
            Err(e) => format_fault(bytes@) == Some(e),
        },
{
    let (_, _, dtype) = read_format(bytes)?;
    match dtype.to_isq() {
        Some(isq) => Ok(isq),
        None => Err(RecordError::Unquantized { dtype }),
    }
}

/// The lowest 32 bits of a size, which is what records hold of it.
pub open spec fn low_word(n: usize) -> u32 {
    (n as u64 % 0x1_0000_0000) as u32
}

/// The bytes of a shape.
pub open spec fn dims_bytes(dims: Seq<usize>) -> Seq<u8>
    decreases dims.len(),
{
    if dims.len() == 0 {
        Seq::empty()
    } else {
        dims_bytes(dims.drop_last()) + le_word(low_word(dims.last()))
    }
}

/// The bytes of a record before its shape.
pub open spec fn head_bytes(dtype: GgmlDType, rank: usize, data_len: usize, has_bias: bool) -> Seq<
    u8,
> {
    le_word(UQFF_VERSION) + seq![UQFF_GGUF] + le_word(low_word(data_len)) + seq![
        if has_bias {
            1u8
        } else {
            0u8
        },
    ] + le_word(dtype.code()) + le_word(low_word(rank))
}

/// The bytes of a record.
pub open spec fn record_bytes(
    dtype: GgmlDType,
    dims: Seq<usize>,
    data: Seq<u8>,
    bias: Option<Seq<u8>>,
) -> Seq<u8> {
    head_bytes(dtype, dims.len() as usize, data.len() as usize, bias is Some) + dims_bytes(dims)
        + data + match bias {
        Some(b) => b,
        None => Seq::empty(),
    }
}

pub(crate) fn push_word(buffer: &mut Vec<u8>, word: u32)
    ensures
        final(buffer)@ == old(buffer)@ + le_word(word),
{
    buffer.push((word % 256) as u8);
    buffer.push((word / 256 % 256) as u8);
    buffer.push((word / 65536 % 256) as u8);
    buffer.push((word / 16777216) as u8);
    assert(buffer@ =~= old(buffer)@ + le_word(word));
}

pub(crate) fn narrow(n: usize) -> (word: u32)
    ensures
        word == low_word(n),
{
    (n as u64 % 0x1_0000_0000) as u32
}

pub(crate) fn push_all(buffer: &mut Vec<u8>, bytes: &Vec<u8>)
    ensures
        final(buffer)@ == old(buffer)@ + bytes@,
{
    let mut i: usize = 0;
    while i < bytes.len()
        invariant
            i <= bytes@.len(),
            buffer@ == old(buffer)@ + bytes@.take(i as int),
        decreases bytes@.len() - i,
    {
        buffer.push(bytes[i]);
        i += 1;
        assert(buffer@ =~= old(buffer)@ + bytes@.take(i as int));
    }
    assert(bytes@.take(i as int) =~= bytes@);
}

/// Writes the record of a tensor; the bias is written already.
pub fn write_record(dtype: GgmlDType, dims: &Vec<usize>, data: &Vec<u8>, bias: Option<&Vec<u8>>) -> (record:
    Vec<u8>)
    ensures
        record@ == record_bytes(
            dtype,
            dims@,
            data@,
            match bias {
                Some(b) => Some(b@),
                None => None,
            },
        ),
{
    let mut buffer: Vec<u8> = Vec::new();
    push_word(&mut buffer, UQFF_VERSION);
    buffer.push(UQFF_GGUF);
    push_word(&mut buffer, narrow(data.len()));
    buffer.push(
        if bias.is_some() {
            1u8
        } else {
            0u8
        },
    );
    push_word(&mut buffer, dtype.uqff_code());
    push_word(&mut buffer, narrow(dims.len()));
    let ghost head = head_bytes(dtype, dims@.len() as usize, data@.len() as usize, bias is Some);
    assert(buffer@ =~= head);
    let mut i: usize = 0;
    while i < dims.len()
        invariant
            i <= dims@.len(),
            buffer@ == head + dims_bytes(dims@.take(i as int)),
        decreases dims@.len() - i,
    {
        push_word(&mut buffer, narrow(dims[i]));
        i += 1;
        assert(dims@.take(i as int).drop_last() =~= dims@.take(i - 1));
        assert(buffer@ =~= head + dims_bytes(dims@.take(i as int)));
    }
    assert(dims@.take(i as int) =~= dims@);
    push_all(&mut buffer, data);
    if let Some(b) = bias {
        push_all(&mut buffer, b);
    } else {
        assert(buffer@ =~= buffer@ + Seq::<u8>::empty());
    }
    buffer
}

pub(crate) proof fn word_of_le(bytes: Seq<u8>, at: int, word: u32)
    requires
        0 <= at,
        at + 4 <= bytes.len(),
        bytes.subrange(at, at + 4) == le_word(word),
    ensures
        word_at(bytes, at) == word,
{
    let part = bytes.subrange(at, at + 4);
    assert(part[0] == bytes[at] && part[1] == bytes[at + 1] && part[2] == bytes[at + 2] && part[3]
        == bytes[at + 3]);
}

pub(crate) proof fn dims_bytes_facts(dims: Seq<usize>, i: int)
    requires
        0 <= i < dims.len(),
    ensures
        dims_bytes(dims).len() == 4 * dims.len(),
        dims_bytes(dims).subrange(4 * i, 4 * i + 4) == le_word(low_word(dims[i])),
    decreases dims.len(),
{
    dims_bytes_len(dims);
    let front = dims.drop_last();
    dims_bytes_len(front);
    if i == dims.len() - 1 {
        assert(dims_bytes(dims).subrange(4 * i, 4 * i + 4) =~= le_word(low_word(dims[i])));
    } else {
        dims_bytes_facts(front, i);
        assert(dims_bytes(dims).subrange(4 * i, 4 * i + 4) =~= dims_bytes(front).subrange(
            4 * i,
            4 * i + 4,
        ));
    }
}

pub(crate) proof fn dims_bytes_len(dims: Seq<usize>)
    ensures
        dims_bytes(dims).len() == 4 * dims.len(),
    decreases dims.len(),
{
    if dims.len() > 0 {
        dims_bytes_len(dims.drop_last());
    }
}

/// A record that was written can be read, and says of the tensor what it was written with: its
/// element type, its shape, whether it has a bias, and where its blocks are. Sizes of more than
/// 32 bits are the exception.
pub proof fn written_record_reads_back(
    dtype: GgmlDType,
    dims: Seq<usize>,
    data: Seq<u8>,
    bias: Option<Seq<u8>>,
    record: GgufRecord,
)
    requires
        dims.len() <= u32::MAX,
        data.len() <= u32::MAX,
        data.len() <= usize::MAX,
        dims.len() <= usize::MAX,
        forall|i: int| 0 <= i < dims.len() ==> #[trigger] dims[i] <= u32::MAX,
    ensures
        ({
            let bytes = record_bytes(dtype, dims, data, bias);
            &&& record_fault(bytes) is None
            &&& describes(bytes, record) ==> {
                &&& record.dtype == dtype
                &&& record.dims@ == dims
                &&& record.has_bias == (bias is Some)
                &&& bytes.subrange(
                    record.data_offset as int,
                    record.data_offset + record.data_len,
                ) == data
                &&& bias is Some ==> bytes.skip(record.data_offset + record.data_len) == bias->0
            }
        }),
{
    let bytes = record_bytes(dtype, dims, data, bias);
    written_words(dtype, dims, data, bias);
    assert(is_code(dtype.code()));
    if describes(bytes, record) {
        crate::gguf::types::codes_are_distinct(record.dtype, dtype);
        assert forall|i: int| 0 <= i < dims.len() implies record.dims@[i] == dims[i] by {
            written_dim(dtype, dims, data, bias, i);
        }
        assert(record.dims@ =~= dims);
        written_parts(dtype, dims, data, bias);
    }
}

proof fn head_words(dtype: GgmlDType, rank: usize, data_len: usize, has_bias: bool)
    ensures
        ({
            let head = head_bytes(dtype, rank, data_len, has_bias);
            &&& head.len() == 18
            &&& word_at(head, 0) == UQFF_VERSION
            &&& head[4] == UQFF_GGUF
            &&& word_at(head, 5) == low_word(data_len)
            &&& (head[9] != 0) == has_bias
            &&& word_at(head, 10) == dtype.code()
            &&& word_at(head, 14) == low_word(rank)
        }),
{
    let head = head_bytes(dtype, rank, data_len, has_bias);
    assert(head.subrange(0, 4) =~= le_word(UQFF_VERSION));
    word_of_le(head, 0, UQFF_VERSION);
    assert(head.subrange(5, 9) =~= le_word(low_word(data_len)));
    word_of_le(head, 5, low_word(data_len));
    assert(head.subrange(10, 14) =~= le_word(dtype.code()));
    word_of_le(head, 10, dtype.code());
    assert(head.subrange(14, 18) =~= le_word(low_word(rank)));
    word_of_le(head, 14, low_word(rank));
}

pub(crate) proof fn written_words(dtype: GgmlDType, dims: Seq<usize>, data: Seq<u8>, bias: Option<Seq<u8>>)
    requires
        dims.len() <= u32::MAX,
        data.len() <= u32::MAX,
        data.len() <= usize::MAX,
        dims.len() <= usize::MAX,
    ensures
        ({
            let bytes = record_bytes(dtype, dims, data, bias);
            &&& bytes.len() >= 18 + 4 * dims.len() + data.len()
            &&& word_at(bytes, 0) == UQFF_VERSION
            &&& bytes[4] == UQFF_GGUF
            &&& word_at(bytes, 5) == data.len()
            &&& (bytes[9] != 0) == (bias is Some)
            &&& word_at(bytes, 10) == dtype.code()
            &&& word_at(bytes, 14) == dims.len()
        }),
{
    let bytes = record_bytes(dtype, dims, data, bias);
    let head = head_bytes(dtype, dims.len() as usize, data.len() as usize, bias is Some);
    head_words(dtype, dims.len() as usize, data.len() as usize, bias is Some);
    dims_bytes_len(dims);
    assert forall|i: int| 0 <= i < 18 implies bytes[i] == head[i] by {}
}

proof fn written_dim(
    dtype: GgmlDType,
    dims: Seq<usize>,
    data: Seq<u8>,
    bias: Option<Seq<u8>>,
    i: int,
)
    requires
        0 <= i < dims.len(),
        dims[i] <= u32::MAX,
    ensures
        word_at(record_bytes(dtype, dims, data, bias), 18 + 4 * i) == dims[i],
{
    let bytes = record_bytes(dtype, dims, data, bias);
    head_words(dtype, dims.len() as usize, data.len() as usize, bias is Some);
    dims_bytes_facts(dims, i);
    assert(bytes.subrange(18 + 4 * i, 18 + 4 * i + 4) =~= dims_bytes(dims).subrange(
        4 * i,
        4 * i + 4,
    ));
    word_of_le(bytes, 18 + 4 * i, dims[i] as u32);
}

proof fn written_parts(dtype: GgmlDType, dims: Seq<usize>, data: Seq<u8>, bias: Option<Seq<u8>>)
    ensures
        ({
            let bytes = record_bytes(dtype, dims, data, bias);
            let start = 18 + 4 * dims.len() as int;
            &&& bytes.subrange(start, start + data.len()) == data
            &&& bias is Some ==> bytes.skip(start + data.len()) == bias->0
        }),
{
    let bytes = record_bytes(dtype, dims, data, bias);
    let start = 18 + 4 * dims.len() as int;
    head_words(dtype, dims.len() as usize, data.len() as usize, bias is Some);
    dims_bytes_len(dims);
    assert(bytes.subrange(start, start + data.len()) =~= data);
    if bias is Some {
        assert(bytes.skip(start + data.len()) =~= bias->0);
    }
}

/// The fields of a record that is written, by their places: the version 1.3.0 in four bytes, the
/// format, the number of bytes of the blocks in four, whether there is a bias, the number of the
/// element type in four, the number of dimensions in four, each dimension in four, the blocks,
/// and the bias to the end. Numbers stand low byte first.
pub proof fn written_fields_stand_in_order(
    dtype: GgmlDType,
    dims: Seq<usize>,
    data: Seq<u8>,
    bias: Option<Seq<u8>>,
    i: int,
)
    requires
        dims.len() <= u32::MAX,
        data.len() <= u32::MAX,
        data.len() <= usize::MAX,
        dims.len() <= usize::MAX,
        0 <= i < dims.len() ==> dims[i] <= u32::MAX,
    ensures
        ({
            let bytes = record_bytes(dtype, dims, data, bias);
            let start = 18 + 4 * dims.len() as int;
            &&& bytes.take(5) == seq![0u8, 3u8, 1u8, 0u8, 0u8]
            &&& bytes[5] + 256 * bytes[6] + 65536 * bytes[7] + 16777216 * bytes[8] == data.len()
            &&& bytes[9] == if bias is Some {
                1int
            } else {
                0int
            }
            &&& bytes[10] + 256 * bytes[11] + 65536 * bytes[12] + 16777216 * bytes[13]
                == dtype.code()
            &&& bytes[14] + 256 * bytes[15] + 65536 * bytes[16] + 16777216 * bytes[17]
                == dims.len()
            &&& 0 <= i < dims.len() ==> bytes[18 + 4 * i] + 256 * bytes[18 + 4 * i + 1] + 65536
                * bytes[18 + 4 * i + 2] + 16777216 * bytes[18 + 4 * i + 3] == dims[i]
            &&& bytes.len() >= start + data.len()
            &&& bytes.subrange(start, start + data.len()) == data
            &&& bytes.skip(start + data.len()) == match bias {
                Some(b) => b,
                None => Seq::<u8>::empty(),
            }
        }),
{
    let bytes = record_bytes(dtype, dims, data, bias);
    let start = 18 + 4 * dims.len() as int;
    written_words(dtype, dims, data, bias);
    if 0 <= i < dims.len() {
        written_dim(dtype, dims, data, bias, i);
    }
    written_parts(dtype, dims, data, bias);
    let head = head_bytes(dtype, dims.len() as usize, data.len() as usize, bias is Some);
    head_words(dtype, dims.len() as usize, data.len() as usize, bias is Some);
    dims_bytes_len(dims);
    assert(bytes[0] == le_word(UQFF_VERSION)[0] && bytes[1] == le_word(UQFF_VERSION)[1]);
    assert(bytes[2] == le_word(UQFF_VERSION)[2] && bytes[3] == le_word(UQFF_VERSION)[3]);
    assert(bytes[4] == 0);
    assert(bytes.take(5) =~= seq![0u8, 3u8, 1u8, 0u8, 0u8]);
    assert(bytes[9] == head[9]);
    if bias is None {
        assert(bytes.skip(start + data.len()) =~= Seq::<u8>::empty());
    }
}

/// What is read of a record comes from the places that it is written to.
pub proof fn read_fields_stand_in_order(bytes: Seq<u8>, record: GgufRecord, i: int)
    requires
        describes(bytes, record),
    ensures
        record.data_len == bytes[5] + 256 * bytes[6] + 65536 * bytes[7] + 16777216 * bytes[8],
        record.has_bias <==> bytes[9] != 0,
        record.dtype.code() == bytes[10] + 256 * bytes[11] + 65536 * bytes[12] + 16777216
            * bytes[13],
        record.dims@.len() == bytes[14] + 256 * bytes[15] + 65536 * bytes[16] + 16777216
            * bytes[17],
        0 <= i < record.dims@.len() ==> record.dims@[i] == bytes[18 + 4 * i] + 256 * bytes[18 + 4
            * i + 1] + 65536 * bytes[18 + 4 * i + 2] + 16777216 * bytes[18 + 4 * i + 3],
        record.data_offset == 18 + 4 * record.dims@.len(),
{
}

/// A record can be read if its major version is 1, whatever the minor version and the patch are.
pub proof fn major_versions_decide(major: int, minor: int, patch: int)
    requires
        0 <= minor < 256,
        0 <= patch < 256,
    ensures
        is_compatible(65536 * major + 256 * minor + patch) <==> major == 1,
        UQFF_VERSION == 65536 * 1 + 256 * 3 + 0,
        UQFF_VERSION_MAJOR == 1,
        UQFF_GGUF == 0,
{
}

/// Sizes below four gibi are told as they are.
pub proof fn small_sizes_are_told(n: usize)
    ensures
        n <= u32::MAX ==> low_word(n) == n,
{
}

/// A record is taken exactly if its major version is 1, its format is that of blocks, its element
/// type is known, and it is long enough for its dimensions and its blocks.
pub proof fn records_that_are_taken(bytes: Seq<u8>)
    requires
        bytes.len() >= 18,
    ensures
        record_fault(bytes) is None <==> {
            let rank = bytes[14] + 256 * bytes[15] + 65536 * bytes[16] + 16777216 * bytes[17];
            let len = bytes[5] + 256 * bytes[6] + 65536 * bytes[7] + 16777216 * bytes[8];
            &&& bytes[2] == 1 && bytes[3] == 0
            &&& bytes[4] == 0
            &&& exists|dtype: GgmlDType|
                bytes[10] + 256 * bytes[11] + 65536 * bytes[12] + 16777216 * bytes[13]
                    == #[trigger] dtype.code()
            &&& bytes.len() >= 18 + 4 * rank + len
        },
{
    let code = word_at(bytes, 10);
    assert(is_code(code as u32) <==> exists|dtype: GgmlDType| code == #[trigger] dtype.code()) by {
        if is_code(code as u32) {
            let dtype = choose|dtype: GgmlDType| code as u32 == #[trigger] dtype.code();
            assert(code == dtype.code());
        }
        if exists|dtype: GgmlDType| code == #[trigger] dtype.code() {
            let dtype = choose|dtype: GgmlDType| code == #[trigger] dtype.code();
            assert(code as u32 == dtype.code());
        }
    }
}

/// What is wrong with a record is looked at from its beginning: the version as soon as there are
/// four bytes, the format with the next, the element type with the fourteenth.
pub proof fn records_are_looked_at_from_the_beginning(bytes: Seq<u8>)
    ensures
        bytes.len() < 4 ==> record_fault(bytes) == Some(RecordError::Truncated),
        bytes.len() >= 4 && !(bytes[2] == 1 && bytes[3] == 0) <==> (record_fault(bytes)
            matches Some(RecordError::Version { version }) && version == bytes[0] + 256 * bytes[1]
            + 65536 * bytes[2] + 16777216 * bytes[3]),
        bytes.len() >= 5 && bytes[2] == 1 && bytes[3] == 0 && bytes[4] != 0 <==> record_fault(bytes)
            == Some(RecordError::Format { format: bytes[4] }),
{
}

/// An element type that is not known is named by its number, and blocks that the record is too
/// short for by their length.
pub proof fn wrong_fields_are_named(bytes: Seq<u8>)
    ensures
        record_fault(bytes) matches Some(RecordError::Dtype { code }) ==> code == bytes[10] + 256
            * bytes[11] + 65536 * bytes[12] + 16777216 * bytes[13],
        record_fault(bytes) matches Some(RecordError::DataLength { data_len }) ==> usize::MAX
            > 0xffff_ffff ==> data_len == bytes[5] + 256 * bytes[6] + 65536 * bytes[7] + 16777216
            * bytes[8],
{
}

} // verus!
