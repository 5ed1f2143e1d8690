//! The bias behind the blocks of a record: its length, element type and shape, then its elements.
use crate::dtype::DType;
use crate::float_bits::{le_word, word_at};
use crate::gguf::header::{
    describes, dims_bytes, dims_bytes_facts, dims_bytes_len, low_word, narrow, push_all, push_word,
    read_record, record_bytes, record_fault, word, word_of_le, written_record_reads_back,
    written_words, GgufRecord, RecordError,
};
use crate::gguf::types::GgmlDType;
use vstd::prelude::*;

verus! {

/// Where the parts of a bias are in the bytes that it was read from.
#[derive(Clone, Debug)]
pub struct BiasRecord {
    pub dtype: DType,
    pub dims: Vec<usize>,
    pub data_offset: usize,
    pub data_len: usize,
}

/// The number of an element type.
pub open spec fn element_code(dtype: DType) -> u32 {
    match dtype {
        DType::U8 => 0,
        DType::U32 => 1,
        DType::I16 => 2,
        DType::I32 => 3,
        DType::I64 => 4,
        DType::BF16 => 5,
        DType::F16 => 6,
        DType::F32 => 7,
        DType::F64 => 8,
        DType::F8E4M3 => 9,
        DType::F6E2M3 => 10,
        DType::F6E3M2 => 11,
        DType::F4 => 12,
        DType::F8E8M0 => 13,
    }
}

fn code_of_element(dtype: DType) -> (code: u32)
    ensures
        code == element_code(dtype),
{
    match dtype {
        DType::U8 => 0,
        DType::U32 => 1,
        DType::I16 => 2,
        DType::I32 => 3,
        DType::I64 => 4,
        DType::BF16 => 5,
        DType::F16 => 6,
        DType::F32 => 7,
        DType::F64 => 8,
        DType::F8E4M3 => 9,
        DType::F6E2M3 => 10,
        DType::F6E3M2 => 11,
        DType::F4 => 12,
        DType::F8E8M0 => 13,
    }
}

fn element_of_code(code: u32) -> (dtype: Option<DType>)
    ensures
        match dtype {
            Some(d) => element_code(d) == code,
            None => code > 13,
        },
{
    match code {
        0 => Some(DType::U8),
        1 => Some(DType::U32),
        2 => Some(DType::I16),
        3 => Some(DType::I32),
        4 => Some(DType::I64),
        5 => Some(DType::BF16),
        6 => Some(DType::F16),
        7 => Some(DType::F32),
        8 => Some(DType::F64),
        9 => Some(DType::F8E4M3),
        10 => Some(DType::F6E2M3),
        11 => Some(DType::F6E3M2),
        12 => Some(DType::F4),
        13 => Some(DType::F8E8M0),
        _ => None,
    }
}

/// What is wrong with the bytes of a bias, in the order in which it is looked at.
pub open spec fn bias_fault(bytes: Seq<u8>) -> Option<RecordError> {
    if bytes.len() < 8 {
        Some(RecordError::Truncated)
    } else if word_at(bytes, 4) > 13 {
        Some(RecordError::BiasDtype { code: word_at(bytes, 4) as u32 })
    } else if bytes.len() < 12 || bytes.len() < 12 + 4 * word_at(bytes, 8) {
        Some(RecordError::Truncated)
    } else if 12 + 4 * word_at(bytes, 8) + word_at(bytes, 0) > bytes.len() {
        Some(RecordError::DataLength { data_len: word_at(bytes, 0) as usize })
    } else {
        None
    }
}

/// Whether this is what the bytes from `at` on say of a bias.
pub open spec fn describes_bias(bytes: Seq<u8>, at: int, bias: BiasRecord) -> bool {
    let rest = bytes.skip(at);
    let n = word_at(rest, 8);
    &&& element_code(bias.dtype) == word_at(rest, 4)
    &&& bias.dims@.len() == n
    &&& forall|i: int| 0 <= i < n ==> #[trigger] bias.dims@[i] == word_at(rest, 12 + 4 * i)
    &&& bias.data_offset == at + 12 + 4 * n
    &&& bias.data_len == word_at(rest, 0)
}

/// Reads what the bytes from `at` on say of a bias.
pub fn read_bias(bytes: &[u8], at: usize) -> (bias: Result<BiasRecord, RecordError>)
    requires
        at <= bytes.len(),
    ensures
        match bias {
            Ok(b) => {
                &&& bias_fault(bytes@.skip(at as int)) is None
                &&& describes_bias(bytes@, at as int, b)
                &&& b.data_offset + b.data_len <= bytes@.len()
            },
            Err(e) => bias_fault(bytes@.skip(at as int)) == Some(e),
        },
{
    let ghost rest = bytes@.skip(at as int);
    let data_len: u32 = word(bytes, at)?;
    let code: u32 = word(bytes, at + 4)?;
    let dtype: DType = match element_of_code(code) {
        Some(dtype) => dtype,
        None => {
            return Err(RecordError::BiasDtype { code });
        },
    };
    let n: u32 = word(bytes, at + 8)?;
    let mut dims: Vec<usize> = Vec::new();
    let mut here: usize = at + 12;
    let mut i: u32 = 0;
    while i < n
        invariant
            i <= n,
            rest == bytes@.skip(at as int),
            at <= bytes@.len(),
            rest.len() >= 12,
            word_at(rest, 4) <= 13,
            n == word_at(rest, 8),
            here == at + 12 + 4 * i,
            here <= bytes@.len(),
            dims@.len() == i,
            forall|j: int| 0 <= j < i ==> #[trigger] dims@[j] == word_at(rest, 12 + 4 * j),
        decreases n - i,
    {
        let dim: u32 = word(bytes, here)?;
        dims.push(dim as usize);
        here = here + 4;
        i += 1;
    }
    let len: usize = data_len as usize;
    if len > bytes.len() - here {
        return Err(RecordError::DataLength { data_len: len });
    }
    Ok(BiasRecord { dtype, dims, data_offset: here, data_len: len })
}

/// The bytes of a bias before its shape.
pub open spec fn bias_head(dtype: DType, rank: usize, data_len: usize) -> Seq<u8> {
    le_word(low_word(data_len)) + le_word(element_code(dtype)) + le_word(low_word(rank))
}

/// The bytes of a bias.
pub open spec fn bias_bytes(dtype: DType, dims: Seq<usize>, data: Seq<u8>) -> Seq<u8> {
    bias_head(dtype, dims.len() as usize, data.len() as usize) + dims_bytes(dims) + data
}

/// Writes a bias.
pub fn write_bias(dtype: DType, dims: &Vec<usize>, data: &Vec<u8>) -> (bias: Vec<u8>)
    ensures
        bias@ == bias_bytes(dtype, dims@, data@),
{
    let mut buffer: Vec<u8> = Vec::new();
    push_word(&mut buffer, narrow(data.len()));
    push_word(&mut buffer, code_of_element(dtype));
    push_word(&mut buffer, narrow(dims.len()));
    let ghost head = bias_head(dtype, dims@.len() as usize, data@.len() as usize);
    assert(buffer@ =~= head);
    let mut i: usize = 0;
    while i < dims.len()
        invariant
            i <= dims@.len(),
            buffer@ == head + dims_bytes(dims@.take(i as int)),
        decreases dims@.len() - i,
    {
        push_word(&mut buffer, narrow(dims[i]));
        i += 1;
        assert(dims@.take(i as int).drop_last() =~= dims@.take(i - 1));
        assert(buffer@ =~= head + dims_bytes(dims@.take(i as int)));
    }
    assert(dims@.take(i as int) =~= dims@);
    push_all(&mut buffer, data);
    buffer
}

proof fn bias_words(dtype: DType, dims: Seq<usize>, data: Seq<u8>)
    requires
        dims.len() <= u32::MAX,
        dims.len() <= usize::MAX,
        data.len() <= u32::MAX,
        data.len() <= usize::MAX,
    ensures
        ({
            let bytes = bias_bytes(dtype, dims, data);
            &&& bytes.len() == 12 + 4 * dims.len() + data.len()
            &&& word_at(bytes, 0) == data.len()
            &&& word_at(bytes, 4) == element_code(dtype)
            &&& word_at(bytes, 8) == dims.len()
        }),
{
    let bytes = bias_bytes(dtype, dims, data);
    dims_bytes_len(dims);
    assert(bytes.subrange(0, 4) =~= le_word(low_word(data.len() as usize)));
    word_of_le(bytes, 0, low_word(data.len() as usize));
    assert(bytes.subrange(4, 8) =~= le_word(element_code(dtype)));
    word_of_le(bytes, 4, element_code(dtype));
    assert(bytes.subrange(8, 12) =~= le_word(low_word(dims.len() as usize)));
    word_of_le(bytes, 8, low_word(dims.len() as usize));
}

proof fn bias_dim(dtype: DType, dims: Seq<usize>, data: Seq<u8>, i: int)
    requires
        0 <= i < dims.len(),
        dims[i] <= u32::MAX,
    ensures
        word_at(bias_bytes(dtype, dims, data), 12 + 4 * i) == dims[i],
{
    let bytes = bias_bytes(dtype, dims, data);
    dims_bytes_facts(dims, i);
    assert(bytes.subrange(12 + 4 * i, 12 + 4 * i + 4) =~= dims_bytes(dims).subrange(
        4 * i,
        4 * i + 4,
    ));
    word_of_le(bytes, 12 + 4 * i, dims[i] as u32);
}

/// Whether the sizes of a tensor are told in 32 bits.
pub open spec fn sizes_are_narrow(dims: Seq<usize>, data: Seq<u8>) -> bool {
    &&& dims.len() <= u32::MAX
    &&& dims.len() <= usize::MAX
    &&& data.len() <= u32::MAX
    &&& data.len() <= usize::MAX
    &&& forall|i: int| 0 <= i < dims.len() ==> #[trigger] dims[i] <= u32::MAX
}

/// A bias that was written reads back as it was.
pub proof fn written_bias_reads_back(
    dtype: DType,
    dims: Seq<usize>,
    data: Seq<u8>,
    bytes: Seq<u8>,
    at: int,
    bias: BiasRecord,
)
    requires
        sizes_are_narrow(dims, data),
        0 <= at <= bytes.len(),
        bytes.skip(at) == bias_bytes(dtype, dims, data),
    ensures
        bias_fault(bytes.skip(at)) is None,
        describes_bias(bytes, at, bias) ==> {
            &&& bias.dtype == dtype
            &&& bias.dims@ == dims
            &&& bytes.subrange(bias.data_offset as int, bias.data_offset + bias.data_len) == data
        },
{
    let rest = bytes.skip(at);
    bias_words(dtype, dims, data);
    if describes_bias(bytes, at, bias) {
        assert forall|i: int| 0 <= i < dims.len() implies bias.dims@[i] == dims[i] by {
            bias_dim(dtype, dims, data, i);
        }
        assert(bias.dims@ =~= dims);
        dims_bytes_len(dims);
        let start = 12 + 4 * dims.len() as int;
        assert(rest.subrange(start, start + data.len()) =~= data);
        assert(bytes.subrange(at + start, at + start + data.len()) =~= rest.subrange(
            start,
            start + data.len(),
        ));
    }
}

/// A bias that was written and then cut short is refused.
pub proof fn cut_bias_is_refused(dtype: DType, dims: Seq<usize>, data: Seq<u8>, n: int)
    requires
        sizes_are_narrow(dims, data),
        0 <= n < bias_bytes(dtype, dims, data).len(),
    ensures
        bias_fault(bias_bytes(dtype, dims, data).take(n)) is Some,
{
    let bytes = bias_bytes(dtype, dims, data);
    bias_words(dtype, dims, data);
    if n >= 12 {
        assert(word_at(bytes.take(n), 0) == word_at(bytes, 0));
        assert(word_at(bytes.take(n), 8) == word_at(bytes, 8));
    }
}

/// A layer as its record tells it: the blocks, and the bias if it has one.
#[derive(Clone, Debug)]
pub struct GgufLayer {
    pub record: GgufRecord,
    pub bias: Option<BiasRecord>,
}

/// Where the blocks of a record end.
pub open spec fn blocks_end(bytes: Seq<u8>) -> int {
    18 + 4 * word_at(bytes, 14) + word_at(bytes, 5)
}

/// What is wrong with the record of a layer: with its blocks first, then with its bias.
pub open spec fn layer_fault(bytes: Seq<u8>) -> Option<RecordError> {
    match record_fault(bytes) {
        Some(fault) => Some(fault),
        None => if bytes[9] != 0 {
            bias_fault(bytes.skip(blocks_end(bytes)))
        } else {
            None
        },
    }
}

/// Whether this is what a record says of a layer.
pub open spec fn describes_layer(bytes: Seq<u8>, layer: GgufLayer) -> bool {
    &&& describes(bytes, layer.record)
    &&& layer.bias is Some == (bytes[9] != 0)
    &&& layer.bias matches Some(bias) ==> describes_bias(bytes, blocks_end(bytes), bias)
}

/// Reads what a record says of a layer.
pub fn read_layer(bytes: &[u8]) -> (layer: Result<GgufLayer, RecordError>)
    ensures
        match layer {
            Ok(l) => {
                &&& layer_fault(bytes@) is None
                &&& describes_layer(bytes@, l)
                &&& l.record.data_offset + l.record.data_len <= bytes@.len()
                &&& l.bias matches Some(b) ==> b.data_offset + b.data_len <= bytes@.len()
            },
            Err(e) => layer_fault(bytes@) == Some(e),
        },
{
    let record: GgufRecord = read_record(bytes)?;
    if !record.has_bias {
        return Ok(GgufLayer { record, bias: None });
    }
    assert(bytes.len() == bytes@.len());
    let bias: BiasRecord = read_bias(bytes, record.data_offset + record.data_len)?;
    Ok(GgufLayer { record, bias: Some(bias) })
}

/// Reads what a record says of a layer if it is one of blocks; `None` if it has another format.
pub fn read_block_layer(bytes: &[u8]) -> (layer: Result<Option<GgufLayer>, RecordError>)
    ensures
        match layer {
            Ok(Some(l)) => {
                &&& layer_fault(bytes@) is None
                &&& describes_layer(bytes@, l)
                &&& l.record.data_offset + l.record.data_len <= bytes@.len()
                &&& l.bias matches Some(b) ==> b.data_offset + b.data_len <= bytes@.len()
            },
            Ok(None) => layer_fault(bytes@) == Some(RecordError::Format { format: bytes@[4] }),
            Err(e) => layer_fault(bytes@) == Some(e) && !(e is Format),
        },
{
    match read_layer(bytes) {
        Ok(layer) => Ok(Some(layer)),
        Err(RecordError::Format { .. }) => Ok(None),
        Err(e) => Err(e),
    }
}

/// A bias: its element type, its shape and the bytes of its elements.
pub type BiasParts = (DType, Seq<usize>, Seq<u8>);

/// The bytes of a layer.
pub open spec fn layer_bytes(
    dtype: GgmlDType,
    dims: Seq<usize>,
    data: Seq<u8>,
    bias: Option<BiasParts>,
) -> Seq<u8> {
    record_bytes(
        dtype,
        dims,
        data,
        match bias {
            Some(b) => Some(bias_bytes(b.0, b.1, b.2)),
            None => None,
        },
    )
}

/// A layer that was written reads back with its element type, shape, blocks and bias. Sizes of
/// more than 32 bits are the exception.
pub proof fn written_layer_reads_back(
    dtype: GgmlDType,
    dims: Seq<usize>,
    data: Seq<u8>,
    bias: Option<BiasParts>,
    layer: GgufLayer,
)
    requires
        sizes_are_narrow(dims, data),
        bias matches Some(b) ==> sizes_are_narrow(b.1, b.2),
    ensures
        ({
            let bytes = layer_bytes(dtype, dims, data, bias);
            let record = layer.record;
            &&& layer_fault(bytes) is None
            &&& describes_layer(bytes, layer) ==> {
                &&& record.dtype == dtype
                &&& record.dims@ == dims
                &&& bytes.subrange(
                    record.data_offset as int,
                    record.data_offset + record.data_len,
                ) == data
                &&& layer.bias is Some == bias is Some
                &&& layer.bias matches Some(read) ==> {
                    &&& read.dtype == (bias->0).0
                    &&& read.dims@ == (bias->0).1
                    &&& bytes.subrange(
                        read.data_offset as int,
                        read.data_offset + read.data_len,
                    ) == (bias->0).2
                }
            }
        }),
{
    let bytes = layer_bytes(dtype, dims, data, bias);
    let tail = match bias {
        Some(b) => Some(bias_bytes(b.0, b.1, b.2)),
        None => None,
    };
    written_words(dtype, dims, data, tail);
    written_record_reads_back(dtype, dims, data, tail, layer.record);
    if let Some(b) = bias {
        written_tail(dtype, dims, data, tail);
        let at = blocks_end(bytes);
        let read = match layer.bias {
            Some(read) => read,
            None => arbitrary(),
        };
        written_bias_reads_back(b.0, b.1, b.2, bytes, at, read);
    }
}

proof fn written_tail(dtype: GgmlDType, dims: Seq<usize>, data: Seq<u8>, tail: Option<Seq<u8>>)
    requires
        sizes_are_narrow(dims, data),
    ensures
        ({
            let bytes = record_bytes(dtype, dims, data, tail);
            &&& blocks_end(bytes) == 18 + 4 * dims.len() + data.len()
            &&& bytes.len() == blocks_end(bytes) + match tail {
                Some(t) => t.len(),
                None => 0,
            }
            &&& tail is Some ==> bytes.skip(blocks_end(bytes)) == tail->0
        }),
{
    let bytes = record_bytes(dtype, dims, data, tail);
    written_words(dtype, dims, data, tail);
    dims_bytes_len(dims);
    if tail is Some {
        assert(bytes.skip(blocks_end(bytes)) =~= tail->0);
    }
}

/// A layer that was written and then cut short is refused, wherever it was cut.
pub proof fn cut_layer_is_refused(
    dtype: GgmlDType,
    dims: Seq<usize>,
    data: Seq<u8>,
    bias: Option<BiasParts>,
    n: int,
)
    requires
        sizes_are_narrow(dims, data),
        bias matches Some(b) ==> sizes_are_narrow(b.1, b.2),
        0 <= n < layer_bytes(dtype, dims, data, bias).len(),
    ensures
        layer_fault(layer_bytes(dtype, dims, data, bias).take(n)) is Some,
{
    let bytes = layer_bytes(dtype, dims, data, bias);
    let cut = bytes.take(n);
    let tail = match bias {
        Some(b) => Some(bias_bytes(b.0, b.1, b.2)),
        None => None,
    };
    written_words(dtype, dims, data, tail);
    written_tail(dtype, dims, data, tail);
    if n >= 18 {
        assert(word_at(cut, 5) == word_at(bytes, 5));
        assert(word_at(cut, 14) == word_at(bytes, 14));
        assert(cut[9] == bytes[9]);
        if n >= blocks_end(bytes) {
            let b = bias->0;
            let at = blocks_end(bytes);
            assert(cut.skip(at) =~= bytes.skip(at).take(n - at));
            cut_bias_is_refused(b.0, b.1, b.2, n - at);
        }
    }
}

/// A number of a bias stands for one element type.
pub proof fn bias_code_tells_the_type(dtype: DType)
    ensures
        element_code(dtype) == 0 <==> dtype == DType::U8,
        element_code(dtype) == 1 <==> dtype == DType::U32,
        element_code(dtype) == 2 <==> dtype == DType::I16,
        element_code(dtype) == 3 <==> dtype == DType::I32,
        element_code(dtype) == 4 <==> dtype == DType::I64,
        element_code(dtype) == 5 <==> dtype == DType::BF16,
        element_code(dtype) == 6 <==> dtype == DType::F16,
        element_code(dtype) == 7 <==> dtype == DType::F32,
        element_code(dtype) == 8 <==> dtype == DType::F64,
        element_code(dtype) == 9 <==> dtype == DType::F8E4M3,
        element_code(dtype) == 10 <==> dtype == DType::F6E2M3,
        element_code(dtype) == 11 <==> dtype == DType::F6E3M2,
        element_code(dtype) == 12 <==> dtype == DType::F4,
        element_code(dtype) == 13 <==> dtype == DType::F8E8M0,
{
}

/// The fields of a bias that is written, by their places: the number of bytes of its elements,
/// the number of its element type and the number of its dimensions, then each dimension, in four
/// bytes each with the low byte first, and the elements to the end.
pub proof fn written_bias_fields_stand_in_order(
    dtype: DType,
    dims: Seq<usize>,
    data: Seq<u8>,
    i: int,
)
    requires
        sizes_are_narrow(dims, data),
    ensures
        ({
            let bytes = bias_bytes(dtype, dims, data);
            &&& bytes[0] + 256 * bytes[1] + 65536 * bytes[2] + 16777216 * bytes[3] == data.len()
            &&& bytes[4] + 256 * bytes[5] + 65536 * bytes[6] + 16777216 * bytes[7]
                == element_code(dtype)
            &&& bytes[8] + 256 * bytes[9] + 65536 * bytes[10] + 16777216 * bytes[11] == dims.len()
            &&& 0 <= i < dims.len() ==> bytes[12 + 4 * i] + 256 * bytes[12 + 4 * i + 1] + 65536
                * bytes[12 + 4 * i + 2] + 16777216 * bytes[12 + 4 * i + 3] == dims[i]
            &&& bytes.skip(12 + 4 * dims.len() as int) == data
        }),
{
    let bytes = bias_bytes(dtype, dims, data);
    bias_words(dtype, dims, data);
    dims_bytes_len(dims);
    if 0 <= i < dims.len() {
        bias_dim(dtype, dims, data, i);
    }
    assert(bytes.skip(12 + 4 * dims.len() as int) =~= data);
}

/// What is read of a bias comes from the places that it is written to.
pub proof fn read_bias_fields_stand_in_order(bytes: Seq<u8>, at: int, bias: BiasRecord, i: int)
    requires
        0 <= at,
        at + 12 <= bytes.len(),
        at + 12 + 4 * bias.dims@.len() <= bytes.len(),
        describes_bias(bytes, at, bias),
    ensures
        bias.data_len == bytes[at] + 256 * bytes[at + 1] + 65536 * bytes[at + 2] + 16777216
            * bytes[at + 3],
        element_code(bias.dtype) == bytes[at + 4] + 256 * bytes[at + 5] + 65536 * bytes[at + 6]
            + 16777216 * bytes[at + 7],
        bias.dims@.len() == bytes[at + 8] + 256 * bytes[at + 9] + 65536 * bytes[at + 10] + 16777216
            * bytes[at + 11],
        0 <= i < bias.dims@.len() ==> bias.dims@[i] == bytes[at + 12 + 4 * i] + 256 * bytes[at + 12
            + 4 * i + 1] + 65536 * bytes[at + 12 + 4 * i + 2] + 16777216 * bytes[at + 12 + 4 * i
            + 3],
        bias.data_offset == at + 12 + 4 * bias.dims@.len(),
{
}

/// A layer has a bias exactly if its record says so, and the bias stands behind the blocks.
pub proof fn bias_stands_behind_the_blocks(bytes: Seq<u8>, layer: GgufLayer)
    requires
        describes_layer(bytes, layer),
    ensures
        layer.bias is Some <==> layer.record.has_bias,
        layer.bias matches Some(bias) ==> bias.data_offset == layer.record.data_offset
            + layer.record.data_len + 12 + 4 * bias.dims@.len(),
{
}

/// A bias is taken exactly if its element type is known and it is long enough for its dimensions
/// and its elements.
pub proof fn biases_that_are_taken(bytes: Seq<u8>)
    requires
        bytes.len() >= 12,
    ensures
        bias_fault(bytes) is None <==> {
            let len = bytes[0] + 256 * bytes[1] + 65536 * bytes[2] + 16777216 * bytes[3];
            let code = bytes[4] + 256 * bytes[5] + 65536 * bytes[6] + 16777216 * bytes[7];
            let rank = bytes[8] + 256 * bytes[9] + 65536 * bytes[10] + 16777216 * bytes[11];
            &&& code <= 13
            &&& bytes.len() >= 12 + 4 * rank + len
        },
{
}

/// A layer is taken exactly if its record is, and its bias too if it says that it has one.
pub proof fn layers_that_are_taken(bytes: Seq<u8>, record: GgufRecord)
    requires
        describes(bytes, record),
        record_fault(bytes) is None,
    ensures
        layer_fault(bytes) is None <==> !record.has_bias || bias_fault(
            bytes.skip(record.data_offset + record.data_len),
        ) is None,
{
}

/// An element type that is not known is named by its number, and elements that the bias is too
/// short for by their length.
pub proof fn wrong_bias_fields_are_named(bytes: Seq<u8>)
    ensures
        bias_fault(bytes) matches Some(RecordError::BiasDtype { code }) ==> code > 13 && code
            == bytes[4] + 256 * bytes[5] + 65536 * bytes[6] + 16777216 * bytes[7],
        bias_fault(bytes) matches Some(RecordError::DataLength { data_len }) ==> usize::MAX
            > 0xffff_ffff ==> data_len == bytes[0] + 256 * bytes[1] + 65536 * bytes[2] + 16777216
            * bytes[3],
{
}

} // verus!
