//! HQZ4 matrices in UQFF files: named tensors, one for each part of a matrix.
use crate::dtype::DType;
use crate::hqz4::kernels::{has_matrix_shape, is_matrix};
use crate::hqz4::tensor::{
    layout_fault, layout_facts, parts_fault, validate_layout, Hqz4Config, Hqz4Error, Hqz4Tensor,
    HQZ4_BITS, HQZ4_LAYOUT_ROW_MAJOR_NIBBLES, HQZ4_SCHEMA_VERSION, HQZ4_TRANSFORM_SHARED_RHT,
};
use crate::tensor::first_fault;
use crate::text::{chars_of, same_text};
use vstd::prelude::*;
use vstd::string::StringExecFns;

verus! {

/// The number of the format of HQZ4 layers in a file.
pub const UQFF_HYPERQUANT: u8 = 7;

/// Name, element type and shape of a tensor in a file.
#[derive(Clone, Debug)]
pub struct UqffEntry {
    pub name: String,
    pub dtype: DType,
    pub dims: Vec<usize>,
}

/// The elements of a tensor in a file. Floats are bit patterns of 32-bit floats, whatever the
/// element type.
#[derive(Clone, Debug)]
pub enum UqffData {
    Bytes(Vec<u8>),
    Words(Vec<u32>),
}

/// The tensors of a file.
#[derive(Clone, Debug)]
pub struct UqffFile {
    pub entries: Vec<UqffEntry>,
    pub data: Vec<UqffData>,
}

/// The parts of a layer.
#[derive(Clone, Copy, Debug, PartialEq, Eq, Structural)]
pub enum Hqz4Field {
    Format,
    Schema,
    Layout,
    Transform,
    Bits,
    GroupSize,
    Shape,
    SeedLo,
    SeedHi,
    Codes,
    Scales,
    Bias,
}

impl Hqz4Field {
    /// The last part of the name of a part.
    pub open spec fn suffix_text(self) -> Seq<char> {
        match self {
            Hqz4Field::Format => "weight.format"@,
            Hqz4Field::Schema => "weight.schema"@,
            Hqz4Field::Layout => "weight.layout"@,
            Hqz4Field::Transform => "weight.transform"@,
            Hqz4Field::Bits => "weight.bits"@,
            Hqz4Field::GroupSize => "weight.group_size"@,
            Hqz4Field::Shape => "weight.shape"@,
            Hqz4Field::SeedLo => "weight.seed_lo"@,
            Hqz4Field::SeedHi => "weight.seed_hi"@,
            Hqz4Field::Codes => "weight"@,
            Hqz4Field::Scales => "weight.scales"@,
            Hqz4Field::Bias => "bias"@,
        }
    }

    /// The last part of the name of a part.
    pub fn suffix(self) -> (suffix: &'static str)
        ensures
            suffix@ == self.suffix_text(),
    {
        match self {
            Hqz4Field::Format => "weight.format",
            Hqz4Field::Schema => "weight.schema",
            Hqz4Field::Layout => "weight.layout",
            Hqz4Field::Transform => "weight.transform",
            Hqz4Field::Bits => "weight.bits",
            Hqz4Field::GroupSize => "weight.group_size",
            Hqz4Field::Shape => "weight.shape",
            Hqz4Field::SeedLo => "weight.seed_lo",
            Hqz4Field::SeedHi => "weight.seed_hi",
            Hqz4Field::Codes => "weight",
            Hqz4Field::Scales => "weight.scales",
            Hqz4Field::Bias => "bias",
        }
    }
}

/// The name of a part of the layer `prefix`.
pub open spec fn field_name(prefix: Seq<char>, field: Hqz4Field) -> Seq<char> {
    prefix + "."@ + field.suffix_text()
}

fn make_name(prefix: &str, field: Hqz4Field) -> (name: String)
    ensures
        name@ == field_name(prefix@, field),
{
    let mut name: String = prefix.to_owned();
    name.append(".");
    name.append(field.suffix());
    name
}

/// Two parts of a layer have different names.
pub proof fn field_names_differ(prefix: Seq<char>, a: Hqz4Field, b: Hqz4Field)
    requires
        field_name(prefix, a) == field_name(prefix, b),
    ensures
        a == b,
{
    reveal_strlit("weight.format");
    reveal_strlit("weight.schema");
    reveal_strlit("weight.layout");
    reveal_strlit("weight.transform");
    reveal_strlit("weight.bits");
    reveal_strlit("weight.group_size");
    reveal_strlit("weight.shape");
    reveal_strlit("weight.seed_lo");
    reveal_strlit("weight.seed_hi");
    reveal_strlit("weight");
    reveal_strlit("weight.scales");
    reveal_strlit("bias");
    let front = prefix + "."@;
    let (x, y) = (a.suffix_text(), b.suffix_text());
    assert(field_name(prefix, a).len() == front.len() + x.len());
    assert(field_name(prefix, b).len() == front.len() + y.len());
    assert forall|i: int| 0 <= i < x.len() implies x[i] == y[i] by {
        assert(field_name(prefix, a)[front.len() + i] == x[i]);
        assert(field_name(prefix, b)[front.len() + i] == y[i]);
    }
    if x.len() == 13 {
        assert(x[7] == y[7] && x[9] == y[9]);
    } else if x.len() == 14 {
        assert(x[12] == y[12]);
    }
}

/// The first tensor of a name.
pub open spec fn first_named(entries: Seq<UqffEntry>, name: Seq<char>) -> Option<int>
    decreases entries.len(),
{
    if entries.len() == 0 {
        None
    } else {
        match first_named(entries.drop_last(), name) {
            Some(i) => Some(i),
            None => if entries.last().name@ == name {
                Some(entries.len() - 1)
            } else {
                None
            },
        }
    }
}

/// What the first tensor of a name is.
pub proof fn first_named_facts(entries: Seq<UqffEntry>, name: Seq<char>)
    ensures
        match first_named(entries, name) {
            Some(i) => {
                &&& 0 <= i < entries.len()
                &&& entries[i].name@ == name
                &&& forall|j: int| 0 <= j < i ==> (#[trigger] entries[j]).name@ != name
            },
            None => forall|j: int| 0 <= j < entries.len() ==> (#[trigger] entries[j]).name@ != name,
        },
    decreases entries.len(),
{
    if entries.len() > 0 {
        let front = entries.drop_last();
        first_named_facts(front, name);
        assert forall|j: int| 0 <= j < front.len() implies entries[j] == front[j] by {}
    }
}

fn find_entry(entries: &Vec<UqffEntry>, name: &str) -> (index: Option<usize>)
    ensures
        match index {
            Some(i) => i < entries.len() && first_named(entries@, name@) == Some(i as int),
            None => first_named(entries@, name@) is None,
        },
{
    proof {
        first_named_facts(entries@, name@);
    }
    let mut i: usize = 0;
    while i < entries.len()
        invariant
            i <= entries.len(),
            forall|j: int| 0 <= j < i ==> (#[trigger] entries@[j]).name@ != name@,
            match first_named(entries@, name@) {
                Some(k) => {
                    &&& 0 <= k < entries@.len()
                    &&& entries@[k].name@ == name@
                    &&& forall|j: int| 0 <= j < k ==> (#[trigger] entries@[j]).name@ != name@
                },
                None => forall|j: int|
                    0 <= j < entries@.len() ==> (#[trigger] entries@[j]).name@ != name@,
            },
        decreases entries.len() - i,
    {
        if same_text(entries[i].name.as_str(), name) {
            return Some(i);
        }
        i += 1;
    }
    None
}

/// Where a part of a layer is in a file.
pub open spec fn field_index(file: UqffFile, prefix: Seq<char>, field: Hqz4Field) -> Option<int> {
    first_named(file.entries@, field_name(prefix, field))
}

/// A part of a layer that is one byte.
pub open spec fn byte_field(file: UqffFile, prefix: Seq<char>, field: Hqz4Field) -> Option<u8> {
    match field_index(file, prefix, field) {
        Some(i) => match file.data@[i] {
            UqffData::Bytes(bytes) if file.entries@[i].dtype == DType::U8
                && file.entries@[i].dims@.len() == 0 && bytes@.len() == 1 => Some(bytes@[0]),
            _ => None,
        },
        None => None,
    }
}

/// A part of a layer that is one 32-bit word.
pub open spec fn word_field(file: UqffFile, prefix: Seq<char>, field: Hqz4Field) -> Option<u32> {
    match field_index(file, prefix, field) {
        Some(i) => match file.data@[i] {
            UqffData::Words(words) if file.entries@[i].dtype == DType::U32
                && file.entries@[i].dims@.len() == 0 && words@.len() == 1 => Some(words@[0]),
            _ => None,
        },
        None => None,
    }
}

/// A part of a layer that is a list of 32-bit words.
pub open spec fn words_field(file: UqffFile, prefix: Seq<char>, field: Hqz4Field) -> Option<
    Seq<u32>,
> {
    match field_index(file, prefix, field) {
        Some(i) => match file.data@[i] {
            UqffData::Words(words) if file.entries@[i].dtype == DType::U32
                && file.entries@[i].dims@.len() == 1 => Some(words@),
            _ => None,
        },
        None => None,
    }
}

/// The shape of a part of a layer.
pub open spec fn dims_field(file: UqffFile, prefix: Seq<char>, field: Hqz4Field) -> Option<
    Seq<usize>,
> {
    match field_index(file, prefix, field) {
        Some(i) => Some(file.entries@[i].dims@),
        None => None,
    }
}

/// The packed codes of a layer.
pub open spec fn stored_codes(file: UqffFile, prefix: Seq<char>) -> Option<Seq<u8>> {
    match field_index(file, prefix, Hqz4Field::Codes) {
        Some(i) => match file.data@[i] {
            UqffData::Bytes(bytes) if file.entries@[i].dtype == DType::U8 => Some(bytes@),
            _ => None,
        },
        None => None,
    }
}

/// The element type and the scales of a layer.
pub open spec fn stored_scales(file: UqffFile, prefix: Seq<char>) -> Option<(DType, Seq<u32>)> {
    match field_index(file, prefix, Hqz4Field::Scales) {
        Some(i) => match file.data@[i] {
            UqffData::Words(words) => Some((file.entries@[i].dtype, words@)),
            _ => None,
        },
        None => None,
    }
}

/// Why a layer cannot be read or written.
#[derive(Clone, Copy, Debug, PartialEq, Eq, Structural)]
pub enum UqffError {
    /// A part of the layer is missing, or is no value of its kind.
    Field { field: Hqz4Field },
    Schema { schema: u32 },
    Layout { layout: u8 },
    Transform { transform: u8 },
    Bits { bits: u8 },
    ShapeRank { rank: usize },
    WeightShape,
    ScaleShape,
    ScaleDtype { dtype: DType },
    Matrix { error: Hqz4Error },
    /// A part of a matrix that was cut along its columns is no full layer.
    InputShard,
    /// The number of rows does not fit in 32 bits.
    RowCount,
    /// The number of columns does not fit in 32 bits.
    ColumnCount,
    /// The group size does not fit in 32 bits.
    GroupSize,
}

/// The fault of a part that is not there.
pub open spec fn absent<T>(value: Option<T>, field: Hqz4Field) -> Option<UqffError> {
    match value {
        Some(_) => None,
        None => Some(UqffError::Field { field }),
    }
}

/// The element types that a file of schema 1 may hold its scales in. Both are read; F32 is what is
/// written, since scales beyond the range of F16 have to read back as they were.
pub open spec fn is_scale_dtype(dtype: DType) -> bool {
    dtype == DType::F16 || dtype == DType::F32
}

/// The seed of two words.
pub open spec fn joined_seed(lo: u32, hi: u32) -> u64 {
    lo as u64 | (hi as u64) << 32u64
}

/// What is wrong with the first fields of a layer. Schema 1 is the only one; it does not tell the
/// element type of the scales.
pub open spec fn format_fault(file: UqffFile, prefix: Seq<char>) -> Option<UqffError> {
    let schema = word_field(file, prefix, Hqz4Field::Schema);
    let layout = byte_field(file, prefix, Hqz4Field::Layout);
    let transform = byte_field(file, prefix, Hqz4Field::Transform);
    let bits = byte_field(file, prefix, Hqz4Field::Bits);
    if schema is None {
        absent(schema, Hqz4Field::Schema)
    } else if layout is None {
        absent(layout, Hqz4Field::Layout)
    } else if transform is None {
        absent(transform, Hqz4Field::Transform)
    } else if bits is None {
        absent(bits, Hqz4Field::Bits)
    } else if schema->0 != HQZ4_SCHEMA_VERSION {
        Some(UqffError::Schema { schema: schema->0 })
    } else if layout->0 != HQZ4_LAYOUT_ROW_MAJOR_NIBBLES {
        Some(UqffError::Layout { layout: layout->0 })
    } else if transform->0 != HQZ4_TRANSFORM_SHARED_RHT {
        Some(UqffError::Transform { transform: transform->0 })
    } else if bits->0 != HQZ4_BITS {
        Some(UqffError::Bits { bits: bits->0 })
    } else {
        None
    }
}

/// What is wrong with the shapes of a layer.
pub open spec fn shape_fault(file: UqffFile, prefix: Seq<char>) -> Option<UqffError> {
    let shape = words_field(file, prefix, Hqz4Field::Shape);
    let group_size = word_field(file, prefix, Hqz4Field::GroupSize);
    let weight = dims_field(file, prefix, Hqz4Field::Codes);
    let scales = dims_field(file, prefix, Hqz4Field::Scales);
    if shape is None {
        absent(shape, Hqz4Field::Shape)
    } else if shape->0.len() != 2 {
        Some(UqffError::ShapeRank { rank: shape->0.len() as usize })
    } else if group_size is None {
        absent(group_size, Hqz4Field::GroupSize)
    } else {
        let (rows, cols) = (shape->0[0] as usize, shape->0[1] as usize);
        let gs = group_size->0 as usize;
        if layout_fault(rows, cols, gs) is Some {
            Some(UqffError::Matrix { error: layout_fault(rows, cols, gs)->0 })
        } else if weight is None {
            absent(weight, Hqz4Field::Codes)
        } else if !is_matrix(weight->0, rows as int, cols as int / 2) {
            Some(UqffError::WeightShape)
        } else if scales is None {
            absent(scales, Hqz4Field::Scales)
        } else if !is_matrix(scales->0, rows as int, cols as int / gs as int) {
            Some(UqffError::ScaleShape)
        } else {
            None
        }
    }
}

/// What is wrong with the values of a layer.
pub open spec fn value_fault(file: UqffFile, prefix: Seq<char>) -> Option<UqffError> {
    let shape = words_field(file, prefix, Hqz4Field::Shape)->0;
    let (rows, cols) = (shape[0] as usize, shape[1] as usize);
    let gs = word_field(file, prefix, Hqz4Field::GroupSize)->0 as usize;
    let lo = word_field(file, prefix, Hqz4Field::SeedLo);
    let hi = word_field(file, prefix, Hqz4Field::SeedHi);
    let codes = stored_codes(file, prefix);
    let scales = stored_scales(file, prefix);
    if lo is None {
        absent(lo, Hqz4Field::SeedLo)
    } else if hi is None {
        absent(hi, Hqz4Field::SeedHi)
    } else if codes is None {
        absent(codes, Hqz4Field::Codes)
    } else if scales is None {
        absent(scales, Hqz4Field::Scales)
    } else if !is_scale_dtype((scales->0).0) {
        Some(UqffError::ScaleDtype { dtype: (scales->0).0 })
    } else {
        match parts_fault(rows, cols, gs, 0, (scales->0).1, codes->0) {
            Some(error) => Some(UqffError::Matrix { error }),
            None => None,
        }
    }
}

/// What is wrong with a layer, in the order in which it is looked at.
pub open spec fn read_fault(file: UqffFile, prefix: Seq<char>) -> Option<UqffError> {
    first_fault(
        format_fault(file, prefix),
        first_fault(shape_fault(file, prefix), value_fault(file, prefix)),
    )
}

/// Whether a matrix is the one that a layer holds.
pub open spec fn is_stored(file: UqffFile, prefix: Seq<char>, t: Hqz4Tensor) -> bool {
    let shape = words_field(file, prefix, Hqz4Field::Shape)->0;
    &&& t.rows == shape[0]
    &&& t.cols == shape[1]
    &&& t.group_size == word_field(file, prefix, Hqz4Field::GroupSize)->0
    &&& t.group_offset == 0
    &&& t.seed == joined_seed(
        word_field(file, prefix, Hqz4Field::SeedLo)->0,
        word_field(file, prefix, Hqz4Field::SeedHi)->0,
    )
    &&& t.codes@ == stored_codes(file, prefix)->0
    &&& t.scales@ == (stored_scales(file, prefix)->0).1
}

impl UqffFile {
    /// Each tensor has its elements.
    pub open spec fn wf(&self) -> bool {
        self.entries@.len() == self.data@.len()
    }

    fn find(&self, prefix: &str, field: Hqz4Field) -> (index: Option<usize>)
        ensures
            match index {
                Some(i) => i < self.entries.len() && field_index(*self, prefix@, field) == Some(
                    i as int,
                ),
                None => field_index(*self, prefix@, field) is None,
            },
    {
        find_entry(&self.entries, make_name(prefix, field).as_str())
    }

    /// A part of a layer that is one byte.
    pub fn load_u8_scalar(&self, prefix: &str, field: Hqz4Field) -> (value: Result<u8, UqffError>)
        requires
            self.wf(),
        ensures
            match value {
                Ok(v) => byte_field(*self, prefix@, field) == Some(v),
                Err(e) => byte_field(*self, prefix@, field) is None && e == (UqffError::Field {
                    field,
                }),
            },
    {
        match self.find(prefix, field) {
            Some(i) => match &self.data[i] {
                UqffData::Bytes(bytes) => {
                    if self.entries[i].dtype == DType::U8 && self.entries[i].dims.len() == 0
                        && bytes.len() == 1 {
                        Ok(bytes[0])
                    } else {
                        Err(UqffError::Field { field })
                    }
                },
                _ => Err(UqffError::Field { field }),
            },
            None => Err(UqffError::Field { field }),
        }
    }

    /// A part of a layer that is one 32-bit word.
    pub fn load_u32_scalar(&self, prefix: &str, field: Hqz4Field) -> (value: Result<u32, UqffError>)
        requires
            self.wf(),
        ensures
            match value {
                Ok(v) => word_field(*self, prefix@, field) == Some(v),
                Err(e) => word_field(*self, prefix@, field) is None && e == (UqffError::Field {
                    field,
                }),
            },
    {
        match self.find(prefix, field) {
            Some(i) => match &self.data[i] {
                UqffData::Words(words) => {
                    if self.entries[i].dtype == DType::U32 && self.entries[i].dims.len() == 0
                        && words.len() == 1 {
                        Ok(words[0])
                    } else {
                        Err(UqffError::Field { field })
                    }
                },
                _ => Err(UqffError::Field { field }),
            },
            None => Err(UqffError::Field { field }),
        }
    }

    /// A part of a layer that is a list of 32-bit words.
    pub fn load_u32_vec(&self, prefix: &str, field: Hqz4Field) -> (value: Result<
        Vec<u32>,
        UqffError,
    >)
        requires
            self.wf(),
        ensures
            match value {
                Ok(v) => words_field(*self, prefix@, field) == Some(v@),
                Err(e) => words_field(*self, prefix@, field) is None && e == (UqffError::Field {
                    field,
                }),
            },
    {
        match self.find(prefix, field) {
            Some(i) => match &self.data[i] {
                UqffData::Words(words) => {
                    if self.entries[i].dtype == DType::U32 && self.entries[i].dims.len() == 1 {
                        let copy: Vec<u32> = words.clone();
                        assert(copy@ =~= words@);
                        Ok(copy)
                    } else {
                        Err(UqffError::Field { field })
                    }
                },
                _ => Err(UqffError::Field { field }),
            },
            None => Err(UqffError::Field { field }),
        }
    }

    fn has_dims(&self, prefix: &str, field: Hqz4Field, rows: usize, cols: usize) -> (same: Result<
        bool,
        UqffError,
    >)
        requires
            self.wf(),
        ensures
            match same {
                Ok(v) => {
                    &&& dims_field(*self, prefix@, field) is Some
                    &&& v == is_matrix(
                        dims_field(*self, prefix@, field)->0,
                        rows as int,
                        cols as int,
                    )
                },
                Err(e) => dims_field(*self, prefix@, field) is None && e == (UqffError::Field {
                    field,
                }),
            },
    {
        match self.find(prefix, field) {
            Some(i) => Ok(has_matrix_shape(&self.entries[i].dims, rows, cols)),
            None => Err(UqffError::Field { field }),
        }
    }

    fn load_codes(&self, prefix: &str) -> (value: Result<Vec<u8>, UqffError>)
        requires
            self.wf(),
        ensures
            match value {
                Ok(v) => stored_codes(*self, prefix@) == Some(v@),
                Err(e) => stored_codes(*self, prefix@) is None && e == (UqffError::Field {
                    field: Hqz4Field::Codes,
                }),
            },
    {
        let field = Hqz4Field::Codes;
        match self.find(prefix, field) {
            Some(i) => match &self.data[i] {
                UqffData::Bytes(bytes) => {
                    if self.entries[i].dtype == DType::U8 {
                        let copy: Vec<u8> = bytes.clone();
                        assert(copy@ =~= bytes@);
                        Ok(copy)
                    } else {
                        Err(UqffError::Field { field })
                    }
                },
                _ => Err(UqffError::Field { field }),
            },
            None => Err(UqffError::Field { field }),
        }
    }

    fn load_scales(&self, prefix: &str) -> (value: Result<(DType, Vec<u32>), UqffError>)
        requires
            self.wf(),
        ensures
            match value {
                Ok(v) => stored_scales(*self, prefix@) == Some((v.0, v.1@)),
                Err(e) => stored_scales(*self, prefix@) is None && e == (UqffError::Field {
                    field: Hqz4Field::Scales,
                }),
            },
    {
        let field = Hqz4Field::Scales;
        match self.find(prefix, field) {
            Some(i) => match &self.data[i] {
                UqffData::Words(words) => {
                    let copy: Vec<u32> = words.clone();
                    assert(copy@ =~= words@);
                    Ok((self.entries[i].dtype, copy))
                },
                _ => Err(UqffError::Field { field }),
            },
            None => Err(UqffError::Field { field }),
        }
    }

    fn check_format(&self, prefix: &str) -> (valid: Result<(), UqffError>)
        requires
            self.wf(),
        ensures
            match valid {
                Ok(_) => format_fault(*self, prefix@) is None,
                Err(e) => format_fault(*self, prefix@) == Some(e),
            },
    {
        let schema: u32 = self.load_u32_scalar(prefix, Hqz4Field::Schema)?;
        let layout: u8 = self.load_u8_scalar(prefix, Hqz4Field::Layout)?;
        let transform: u8 = self.load_u8_scalar(prefix, Hqz4Field::Transform)?;
        let bits: u8 = self.load_u8_scalar(prefix, Hqz4Field::Bits)?;
        if schema != HQZ4_SCHEMA_VERSION {
            return Err(UqffError::Schema { schema });
        }
        if layout != HQZ4_LAYOUT_ROW_MAJOR_NIBBLES {
            return Err(UqffError::Layout { layout });
        }
        if transform != HQZ4_TRANSFORM_SHARED_RHT {
            return Err(UqffError::Transform { transform });
        }
        if bits as usize != HQZ4_BITS {
            return Err(UqffError::Bits { bits });
        }
        Ok(())
    }

    fn check_shape(&self, prefix: &str) -> (sizes: Result<(usize, usize, usize), UqffError>)
        requires
            self.wf(),
        ensures
            match sizes {
                Ok((rows, cols, group_size)) => {
                    let shape = words_field(*self, prefix@, Hqz4Field::Shape)->0;
                    &&& shape_fault(*self, prefix@) is None
                    &&& rows == shape[0]
                    &&& cols == shape[1]
                    &&& group_size == word_field(*self, prefix@, Hqz4Field::GroupSize)->0
                    &&& layout_fault(rows, cols, group_size) is None
                },
                Err(e) => shape_fault(*self, prefix@) == Some(e),
            },
    {
        let shape: Vec<u32> = self.load_u32_vec(prefix, Hqz4Field::Shape)?;
        if shape.len() != 2 {
            return Err(UqffError::ShapeRank { rank: shape.len() });
        }
        let rows: usize = shape[0] as usize;
        let cols: usize = shape[1] as usize;
        let group_size: usize = self.load_u32_scalar(prefix, Hqz4Field::GroupSize)? as usize;
        if let Err(error) = validate_layout(rows, cols, group_size) {
            return Err(UqffError::Matrix { error });
        }
        if !self.has_dims(prefix, Hqz4Field::Codes, rows, cols / 2)? {
            return Err(UqffError::WeightShape);
        }
        if !self.has_dims(prefix, Hqz4Field::Scales, rows, cols / group_size)? {
            return Err(UqffError::ScaleShape);
        }
        Ok((rows, cols, group_size))
    }

    /// Reads the matrix of the layer `prefix`.
    pub fn read_hqz4(&self, prefix: &str) -> (tensor: Result<Hqz4Tensor, UqffError>)
        requires
            self.wf(),
        ensures
            match tensor {
                Ok(t) => {
                    &&& read_fault(*self, prefix@) is None
                    &&& t.wf()
                    &&& is_stored(*self, prefix@, t)
                },
                Err(e) => read_fault(*self, prefix@) == Some(e),
            },
    {
        self.check_format(prefix)?;
        let (rows, cols, group_size) = self.check_shape(prefix)?;
        let seed_lo: u32 = self.load_u32_scalar(prefix, Hqz4Field::SeedLo)?;
        let seed_hi: u32 = self.load_u32_scalar(prefix, Hqz4Field::SeedHi)?;
        let seed: u64 = seed_lo as u64 | (seed_hi as u64) << 32u64;
        let codes: Vec<u8> = self.load_codes(prefix)?;
        let (dtype, scales) = self.load_scales(prefix)?;
        if dtype != DType::F16 && dtype != DType::F32 {
            return Err(UqffError::ScaleDtype { dtype });
        }
        let cfg: Hqz4Config = Hqz4Config { group_size, seed };
        match Hqz4Tensor::from_parts(rows, cols, cfg, scales, codes) {
            Ok(tensor) => Ok(tensor),
            Err(error) => Err(UqffError::Matrix { error }),
        }
    }
}

/// The tensor of a part of a layer as it is written.
pub open spec fn is_entry(
    file: UqffFile,
    i: int,
    prefix: Seq<char>,
    field: Hqz4Field,
    dtype: DType,
    dims: Seq<usize>,
) -> bool {
    &&& file.entries@[i].name@ == field_name(prefix, field)
    &&& file.entries@[i].dtype == dtype
    &&& file.entries@[i].dims@ == dims
}

/// Whether element `i` of a file is this list of bytes.
pub open spec fn holds_bytes(file: UqffFile, i: int, bytes: Seq<u8>) -> bool {
    match file.data@[i] {
        UqffData::Bytes(b) => b@ == bytes,
        UqffData::Words(_) => false,
    }
}

/// Whether element `i` of a file is this list of words.
pub open spec fn holds_words(file: UqffFile, i: int, words: Seq<u32>) -> bool {
    match file.data@[i] {
        UqffData::Bytes(_) => false,
        UqffData::Words(w) => w@ == words,
    }
}

/// Whether a file is what a matrix is written as: eleven tensors in this order, of schema 1 with
/// F32 scales.
pub open spec fn is_written(file: UqffFile, prefix: Seq<char>, t: Hqz4Tensor) -> bool {
    let none = Seq::<usize>::empty();
    &&& file.wf()
    &&& file.entries@.len() >= 11
    &&& is_entry(file, 0, prefix, Hqz4Field::Format, DType::U8, none)
    &&& holds_bytes(file, 0, seq![UQFF_HYPERQUANT])
    &&& is_entry(file, 1, prefix, Hqz4Field::Schema, DType::U32, none)
    &&& holds_words(file, 1, seq![HQZ4_SCHEMA_VERSION])
    &&& is_entry(file, 2, prefix, Hqz4Field::Layout, DType::U8, none)
    &&& holds_bytes(file, 2, seq![HQZ4_LAYOUT_ROW_MAJOR_NIBBLES])
    &&& is_entry(file, 3, prefix, Hqz4Field::Transform, DType::U8, none)
    &&& holds_bytes(file, 3, seq![HQZ4_TRANSFORM_SHARED_RHT])
    &&& is_entry(file, 4, prefix, Hqz4Field::Bits, DType::U8, none)
    &&& holds_bytes(file, 4, seq![4u8])
    &&& is_entry(file, 5, prefix, Hqz4Field::GroupSize, DType::U32, none)
    &&& holds_words(file, 5, seq![t.group_size as u32])
    &&& is_entry(file, 6, prefix, Hqz4Field::Shape, DType::U32, seq![2usize])
    &&& holds_words(file, 6, seq![t.rows as u32, t.cols as u32])
    &&& is_entry(file, 7, prefix, Hqz4Field::SeedLo, DType::U32, none)
    &&& holds_words(file, 7, seq![t.seed as u32])
    &&& is_entry(file, 8, prefix, Hqz4Field::SeedHi, DType::U32, none)
    &&& holds_words(file, 8, seq![(t.seed >> 32u64) as u32])
    &&& is_entry(
        file,
        9,
        prefix,
        Hqz4Field::Codes,
        DType::U8,
        seq![t.rows, (t.cols as int / 2) as usize],
    )
    &&& holds_bytes(file, 9, t.codes@)
    &&& is_entry(
        file,
        10,
        prefix,
        Hqz4Field::Scales,
        DType::F32,
        seq![t.rows, (t.cols as int / t.group_size as int) as usize],
    )
    &&& holds_words(file, 10, t.scales@)
}

/// A bias that goes with a matrix: its element type, shape and elements.
pub struct Hqz4Bias {
    pub dtype: DType,
    pub dims: Vec<usize>,
    pub data: UqffData,
}

/// Why a matrix cannot be written.
pub open spec fn write_fault(t: Hqz4Tensor) -> Option<UqffError> {
    if t.group_offset != 0 {
        Some(UqffError::InputShard)
    } else if t.rows > u32::MAX {
        Some(UqffError::RowCount)
    } else if t.cols > u32::MAX {
        Some(UqffError::ColumnCount)
    } else if t.group_size > u32::MAX {
        Some(UqffError::GroupSize)
    } else {
        None
    }
}

/// Whether one tensor was added to a file.
spec fn extends(before: UqffFile, after: UqffFile) -> bool {
    &&& after.wf()
    &&& after.entries@.len() == before.entries@.len() + 1
    &&& forall|j: int|
        0 <= j < before.entries@.len() ==> (#[trigger] after.entries@[j]) == before.entries@[j]
    &&& forall|j: int|
        0 <= j < before.data@.len() ==> (#[trigger] after.data@[j]) == before.data@[j]
}

impl UqffFile {
    fn push(&mut self, prefix: &str, field: Hqz4Field, dtype: DType, dims: Vec<usize>, data: UqffData)
        requires
            old(self).wf(),
        ensures
            extends(*old(self), *final(self)),
            final(self).data@[old(self).entries@.len() as int] == data,
            is_entry(
                *final(self),
                old(self).entries@.len() as int,
                prefix@,
                field,
                dtype,
                dims@,
            ),
    {
        self.entries.push(UqffEntry { name: make_name(prefix, field), dtype, dims });
        self.data.push(data);
    }

    fn push_byte(&mut self, prefix: &str, field: Hqz4Field, value: u8)
        requires
            old(self).wf(),
        ensures
            extends(*old(self), *final(self)),
            holds_bytes(*final(self), old(self).entries@.len() as int, seq![value]),
            is_entry(
                *final(self),
                old(self).entries@.len() as int,
                prefix@,
                field,
                DType::U8,
                Seq::empty(),
            ),
    {
        let dims: Vec<usize> = Vec::new();
        let data: Vec<u8> = vec![value];
        assert(data@ =~= seq![value]);
        self.push(prefix, field, DType::U8, dims, UqffData::Bytes(data));
    }

    fn push_word(&mut self, prefix: &str, field: Hqz4Field, value: u32)
        requires
            old(self).wf(),
        ensures
            extends(*old(self), *final(self)),
            holds_words(*final(self), old(self).entries@.len() as int, seq![value]),
            is_entry(
                *final(self),
                old(self).entries@.len() as int,
                prefix@,
                field,
                DType::U32,
                Seq::empty(),
            ),
    {
        let dims: Vec<usize> = Vec::new();
        let data: Vec<u32> = vec![value];
        assert(data@ =~= seq![value]);
        self.push(prefix, field, DType::U32, dims, UqffData::Words(data));
    }

    /// Writes a matrix, and its bias if there is one, as the layer `prefix`.
    #[verifier::rlimit(40)]
    pub fn write_hqz4(tensor: &Hqz4Tensor, bias: Option<Hqz4Bias>, prefix: &str) -> (file: Result<
        UqffFile,
        UqffError,
    >)
        requires
            tensor.wf(),
        ensures
            match file {
                Ok(f) => {
                    &&& write_fault(*tensor) is None
                    &&& is_written(f, prefix@, *tensor)
                    &&& match bias {
                        None => f.entries@.len() == 11,
                        Some(b) => {
                            &&& f.entries@.len() == 12
                            &&& is_entry(f, 11, prefix@, Hqz4Field::Bias, b.dtype, b.dims@)
                            &&& f.data@[11] == b.data
                        },
                    }
                },
                Err(e) => write_fault(*tensor) == Some(e),
            },
    {
        if tensor.group_offset != 0 {
            return Err(UqffError::InputShard);
        }
        if tensor.rows > u32::MAX as usize {
            return Err(UqffError::RowCount);
        }
        if tensor.cols > u32::MAX as usize {
            return Err(UqffError::ColumnCount);
        }
        if tensor.group_size > u32::MAX as usize {
            return Err(UqffError::GroupSize);
        }
        let mut file: UqffFile = UqffFile { entries: Vec::new(), data: Vec::new() };
        file.push_byte(prefix, Hqz4Field::Format, UQFF_HYPERQUANT);
        file.push_word(prefix, Hqz4Field::Schema, HQZ4_SCHEMA_VERSION);
        file.push_byte(prefix, Hqz4Field::Layout, HQZ4_LAYOUT_ROW_MAJOR_NIBBLES);
        file.push_byte(prefix, Hqz4Field::Transform, HQZ4_TRANSFORM_SHARED_RHT);
        file.push_byte(prefix, Hqz4Field::Bits, HQZ4_BITS as u8);
        file.push_word(prefix, Hqz4Field::GroupSize, tensor.group_size as u32);
        let shape_dims: Vec<usize> = vec![2];
        let shape: Vec<u32> = vec![tensor.rows as u32, tensor.cols as u32];
        assert(shape_dims@ =~= seq![2usize]);
        assert(shape@ =~= seq![tensor.rows as u32, tensor.cols as u32]);
        file.push(prefix, Hqz4Field::Shape, DType::U32, shape_dims, UqffData::Words(shape));
        file.push_word(prefix, Hqz4Field::SeedLo, #[verifier::truncate] (tensor.seed as u32));
        file.push_word(
            prefix,
            Hqz4Field::SeedHi,
            #[verifier::truncate] ((tensor.seed >> 32u64) as u32),
        );
        let codes: Vec<u8> = tensor.codes.clone();
        assert(codes@ =~= tensor.codes@);
        let code_dims: Vec<usize> = vec![tensor.rows, tensor.cols / 2];
        assert(code_dims@ =~= seq![tensor.rows, (tensor.cols as int / 2) as usize]);
        file.push(prefix, Hqz4Field::Codes, DType::U8, code_dims, UqffData::Bytes(codes));
        let scales: Vec<u32> = tensor.scales.clone();
        assert(scales@ =~= tensor.scales@);
        let scale_dims: Vec<usize> = vec![tensor.rows, tensor.cols / tensor.group_size];
        assert(scale_dims@ =~= seq![
            tensor.rows,
            (tensor.cols as int / tensor.group_size as int) as usize,
        ]);
        file.push(prefix, Hqz4Field::Scales, DType::F32, scale_dims, UqffData::Words(scales));
        if let Some(b) = bias {
            file.push(prefix, Hqz4Field::Bias, b.dtype, b.dims, b.data);
        }
        Ok(file)
    }
}

proof fn first_named_is(entries: Seq<UqffEntry>, name: Seq<char>, i: int)
    requires
        0 <= i < entries.len(),
        entries[i].name@ == name,
        forall|j: int| 0 <= j < i ==> (#[trigger] entries[j]).name@ != name,
    ensures
        first_named(entries, name) == Some(i),
{
    first_named_facts(entries, name);
    let k = first_named(entries, name);
    if k is None {
        assert(entries[i].name@ != name);
    } else if k->0 < i {
        assert(entries[k->0].name@ != name);
    }
}

/// The position at which a part of a layer is written.
pub open spec fn written_at(field: Hqz4Field) -> int {
    match field {
        Hqz4Field::Format => 0,
        Hqz4Field::Schema => 1,
        Hqz4Field::Layout => 2,
        Hqz4Field::Transform => 3,
        Hqz4Field::Bits => 4,
        Hqz4Field::GroupSize => 5,
        Hqz4Field::Shape => 6,
        Hqz4Field::SeedLo => 7,
        Hqz4Field::SeedHi => 8,
        Hqz4Field::Codes => 9,
        Hqz4Field::Scales => 10,
        Hqz4Field::Bias => 11,
    }
}

spec fn field_of(i: int) -> Hqz4Field {
    if i == 0 {
        Hqz4Field::Format
    } else if i == 1 {
        Hqz4Field::Schema
    } else if i == 2 {
        Hqz4Field::Layout
    } else if i == 3 {
        Hqz4Field::Transform
    } else if i == 4 {
        Hqz4Field::Bits
    } else if i == 5 {
        Hqz4Field::GroupSize
    } else if i == 6 {
        Hqz4Field::Shape
    } else if i == 7 {
        Hqz4Field::SeedLo
    } else if i == 8 {
        Hqz4Field::SeedHi
    } else if i == 9 {
        Hqz4Field::Codes
    } else {
        Hqz4Field::Scales
    }
}

proof fn written_index(file: UqffFile, prefix: Seq<char>, t: Hqz4Tensor, field: Hqz4Field)
    requires
        is_written(file, prefix, t),
        field != Hqz4Field::Bias,
    ensures
        field_index(file, prefix, field) == Some(written_at(field)),
{
    let at = written_at(field);
    assert forall|j: int| 0 <= j < at implies (#[trigger] file.entries@[j]).name@ != field_name(
        prefix,
        field,
    ) by {
        assert(file.entries@[j].name@ == field_name(prefix, field_of(j)));
        if field_name(prefix, field_of(j)) == field_name(prefix, field) {
            field_names_differ(prefix, field_of(j), field);
        }
    }
    first_named_is(file.entries@, field_name(prefix, field), at);
}

/// The two halves of a seed give it back.
pub proof fn seed_halves_join(seed: u64)
    ensures
        joined_seed(seed as u32, (seed >> 32u64) as u32) == seed,
{
    assert((seed as u32) as u64 | (((seed >> 32u64) as u32) as u64) << 32u64 == seed)
        by (bit_vector);
}

/// Reading a layer that a matrix was written as succeeds, and gives the matrix.
pub proof fn written_layer_reads_back(file: UqffFile, prefix: Seq<char>, t: Hqz4Tensor)
    requires
        t.wf(),
        write_fault(t) is None,
        is_written(file, prefix, t),
    ensures
        read_fault(file, prefix) is None,
        is_stored(file, prefix, t),
        forall|other: Hqz4Tensor| #[trigger]
            is_stored(file, prefix, other) ==> {
                &&& other.rows == t.rows
                &&& other.cols == t.cols
                &&& other.group_size == t.group_size
                &&& other.group_offset == t.group_offset
                &&& other.seed == t.seed
                &&& other.codes@ == t.codes@
                &&& other.scales@ == t.scales@
            },
{
    written_index(file, prefix, t, Hqz4Field::Schema);
    written_index(file, prefix, t, Hqz4Field::Layout);
    written_index(file, prefix, t, Hqz4Field::Transform);
    written_index(file, prefix, t, Hqz4Field::Bits);
    written_index(file, prefix, t, Hqz4Field::GroupSize);
    written_index(file, prefix, t, Hqz4Field::Shape);
    written_index(file, prefix, t, Hqz4Field::SeedLo);
    written_index(file, prefix, t, Hqz4Field::SeedHi);
    written_index(file, prefix, t, Hqz4Field::Codes);
    written_index(file, prefix, t, Hqz4Field::Scales);
    seed_halves_join(t.seed);
    layout_facts(t.rows, t.cols, t.group_size);
    assert(words_field(file, prefix, Hqz4Field::Shape) == Some(seq![t.rows as u32, t.cols as u32]));
    assert(format_fault(file, prefix) is None);
    assert(shape_fault(file, prefix) is None);
    assert(value_fault(file, prefix) is None);
}

/// The kind of element and shape that a part of a layer has in a file.
pub open spec fn header_entry_fits(entry: UqffEntry, field: Hqz4Field) -> bool {
    match field {
        Hqz4Field::Format | Hqz4Field::Layout | Hqz4Field::Transform | Hqz4Field::Bits =>
            entry.dtype == DType::U8 && entry.dims@.len() == 0,
        Hqz4Field::Schema | Hqz4Field::GroupSize | Hqz4Field::SeedLo | Hqz4Field::SeedHi =>
            entry.dtype == DType::U32 && entry.dims@.len() == 0,
        Hqz4Field::Shape => entry.dtype == DType::U32 && entry.dims@.len() == 1,
        Hqz4Field::Codes => entry.dtype == DType::U8,
        Hqz4Field::Scales => is_scale_dtype(entry.dtype),
        Hqz4Field::Bias => true,
    }
}

/// Whether the entries, named by their suffixes, hold a part of a layer.
pub open spec fn header_has(entries: Seq<UqffEntry>, field: Hqz4Field) -> bool {
    match first_named(entries, field.suffix_text()) {
        Some(i) => header_entry_fits(entries[i], field),
        None => false,
    }
}

/// Whether a suffix belongs to the weight of a layer.
pub open spec fn is_weight_suffix(suffix: Seq<char>) -> bool {
    suffix.len() >= 6 && suffix.take(6) == "weight"@
}

/// Whether a suffix is that of a part of an HQZ4 weight.
pub open spec fn is_hqz4_suffix(suffix: Seq<char>) -> bool {
    exists|field: Hqz4Field|
        field != Hqz4Field::Bias && suffix == (#[trigger] field.suffix_text())
}

/// Whether the entries of a layer, named by their suffixes, are those of an HQZ4 weight: all
/// of its parts, each of its kind, and no other part of a weight.
pub open spec fn header_matches(entries: Seq<UqffEntry>) -> bool {
    &&& forall|field: Hqz4Field| field != Hqz4Field::Bias ==> #[trigger] header_has(entries, field)
    &&& forall|i: int|
        0 <= i < entries.len() && is_weight_suffix((#[trigger] entries[i]).name@)
            ==> is_hqz4_suffix(entries[i].name@)
}

fn entry_fits(entry: &UqffEntry, field: Hqz4Field) -> (fits: bool)
    ensures
        fits == header_entry_fits(*entry, field),
{
    match field {
        Hqz4Field::Format | Hqz4Field::Layout | Hqz4Field::Transform | Hqz4Field::Bits =>
            entry.dtype == DType::U8 && entry.dims.len() == 0,
        Hqz4Field::Schema | Hqz4Field::GroupSize | Hqz4Field::SeedLo | Hqz4Field::SeedHi =>
            entry.dtype == DType::U32 && entry.dims.len() == 0,
        Hqz4Field::Shape => entry.dtype == DType::U32 && entry.dims.len() == 1,
        Hqz4Field::Codes => entry.dtype == DType::U8,
        Hqz4Field::Scales => entry.dtype == DType::F16 || entry.dtype == DType::F32,
        Hqz4Field::Bias => true,
    }
}

fn has_field(entries: &Vec<UqffEntry>, field: Hqz4Field) -> (has: bool)
    ensures
        has == header_has(entries@, field),
{
    match find_entry(entries, field.suffix()) {
        Some(i) => entry_fits(&entries[i], field),
        None => false,
    }
}

fn weight_suffix(suffix: &str) -> (yes: bool)
    ensures
        yes == is_weight_suffix(suffix@),
{
    proof {
        reveal_strlit("weight");
    }
    let chars: Vec<char> = chars_of(suffix);
    let yes: bool = chars.len() >= 6 && chars[0] == 'w' && chars[1] == 'e' && chars[2] == 'i'
        && chars[3] == 'g' && chars[4] == 'h' && chars[5] == 't';
    proof {
        if yes {
            assert(suffix@.take(6) =~= "weight"@);
        } else if suffix@.len() >= 6 && suffix@.take(6) == "weight"@ {
            assert(suffix@.take(6)[0] == 'w' && suffix@.take(6)[1] == 'e' && suffix@.take(6)[2]
                == 'i' && suffix@.take(6)[3] == 'g' && suffix@.take(6)[4] == 'h' && suffix@.take(
                6,
            )[5] == 't');
        }
    }
    yes
}

fn hqz4_suffix(suffix: &str) -> (yes: bool)
    ensures
        yes == is_hqz4_suffix(suffix@),
{
    let fields: Vec<Hqz4Field> = vec![
        Hqz4Field::Format,
        Hqz4Field::Schema,
        Hqz4Field::Layout,
        Hqz4Field::Transform,
        Hqz4Field::Bits,
        Hqz4Field::GroupSize,
        Hqz4Field::Shape,
        Hqz4Field::SeedLo,
        Hqz4Field::SeedHi,
        Hqz4Field::Codes,
        Hqz4Field::Scales,
    ];
    let mut i: usize = 0;
    while i < fields.len()
        invariant
            i <= fields.len(),
            fields.len() == 11,
            forall|j: int| 0 <= j < 11 ==> #[trigger] fields@[j] == field_of(j),
            forall|j: int| 0 <= j < i ==> suffix@ != (#[trigger] field_of(j)).suffix_text(),
        decreases fields.len() - i,
    {
        if same_text(suffix, fields[i].suffix()) {
            assert(field_of(i as int) != Hqz4Field::Bias);
            return true;
        }
        i += 1;
    }
    proof {
        if is_hqz4_suffix(suffix@) {
            let field = choose|field: Hqz4Field|
                field != Hqz4Field::Bias && suffix@ == (#[trigger] field.suffix_text());
            assert(field_of(written_at(field)) == field);
        }
    }
    false
}

/// Whether the entries of a layer, named by their suffixes, are those of an HQZ4 weight.
pub fn inspect_uqff_header(entries: &Vec<UqffEntry>) -> (matches: bool)
    ensures
        matches == header_matches(entries@),
{
    if !(has_field(entries, Hqz4Field::Format) && has_field(entries, Hqz4Field::Schema)
        && has_field(entries, Hqz4Field::Layout) && has_field(entries, Hqz4Field::Transform)
        && has_field(entries, Hqz4Field::Bits) && has_field(entries, Hqz4Field::GroupSize)
        && has_field(entries, Hqz4Field::Shape) && has_field(entries, Hqz4Field::SeedLo)
        && has_field(entries, Hqz4Field::SeedHi) && has_field(entries, Hqz4Field::Codes)
        && has_field(entries, Hqz4Field::Scales)) {
        return false;
    }
    let mut i: usize = 0;
    while i < entries.len()
        invariant
            i <= entries.len(),
            forall|field: Hqz4Field|
                field != Hqz4Field::Bias ==> #[trigger] header_has(entries@, field),
            forall|j: int|
                0 <= j < i && is_weight_suffix((#[trigger] entries@[j]).name@) ==> is_hqz4_suffix(
                    entries@[j].name@,
                ),
        decreases entries.len() - i,
    {
        let name: &str = entries[i].name.as_str();
        if weight_suffix(name) && !hqz4_suffix(name) {
            assert(!is_hqz4_suffix(entries@[i as int].name@));
            return false;
        }
        i += 1;
    }
    true
}

impl UqffFile {
    /// The name of the quantization that a layer is stored in.
    pub fn stored_label(&self, prefix: &str) -> (label: Result<&'static str, UqffError>)
        requires
            self.wf(),
        ensures
            match label {
                Ok(l) => l@ == "hqz4"@ && byte_field(*self, prefix@, Hqz4Field::Bits) == Some(4u8),
                Err(UqffError::Bits { bits }) => bits != 4 && byte_field(
                    *self,
                    prefix@,
                    Hqz4Field::Bits,
                ) == Some(bits),
                Err(e) => byte_field(*self, prefix@, Hqz4Field::Bits) is None && e == (
                UqffError::Field { field: Hqz4Field::Bits }),
            },
    {
        let bits: u8 = self.load_u8_scalar(prefix, Hqz4Field::Bits)?;
        if bits as usize != HQZ4_BITS {
            return Err(UqffError::Bits { bits });
        }
        Ok("hqz4")
    }
}

/// The parts of a layer go by the name of the layer, a dot and these names.
pub proof fn parts_go_by_their_names(prefix: Seq<char>, field: Hqz4Field)
    ensures
        field_name(prefix, field) == prefix.push('.') + field.suffix_text(),
        field == Hqz4Field::Format ==> field.suffix_text() == "weight.format"@,
        field == Hqz4Field::Schema ==> field.suffix_text() == "weight.schema"@,
        field == Hqz4Field::Layout ==> field.suffix_text() == "weight.layout"@,
        field == Hqz4Field::Transform ==> field.suffix_text() == "weight.transform"@,
        field == Hqz4Field::Bits ==> field.suffix_text() == "weight.bits"@,
        field == Hqz4Field::GroupSize ==> field.suffix_text() == "weight.group_size"@,
        field == Hqz4Field::Shape ==> field.suffix_text() == "weight.shape"@,
        field == Hqz4Field::SeedLo ==> field.suffix_text() == "weight.seed_lo"@,
        field == Hqz4Field::SeedHi ==> field.suffix_text() == "weight.seed_hi"@,
        field == Hqz4Field::Codes ==> field.suffix_text() == "weight"@,
        field == Hqz4Field::Scales ==> field.suffix_text() == "weight.scales"@,
        field == Hqz4Field::Bias ==> field.suffix_text() == "bias"@,
{
    reveal_strlit(".");
    assert(prefix + "."@ =~= prefix.push('.'));
}

/// The seed is made of two words, the low one first.
pub proof fn seed_is_two_words(lo: u32, hi: u32)
    ensures
        joined_seed(lo, hi) == lo + 4294967296 * hi,
{
    let (a, b) = (lo as u64, hi as u64);
    assert(a | (b << 32u64) == a + 4294967296u64 * b && a + 4294967296u64 * b
        <= 0xffff_ffff_ffff_ffffu64) by (bit_vector)
        requires
            a <= 0xffff_ffffu64,
            b <= 0xffff_ffffu64,
    ;
}

/// The first tensors of a written file, by their names and contents: format 7, schema 1, layout 0,
/// transform 0, 4 bits, the group size, rows and columns, the low and the high word of the seed,
/// the codes with two columns in a byte, and the scales with one for each group.
pub proof fn written_file_lists_its_parts(
    file: UqffFile,
    prefix: Seq<char>,
    t: Hqz4Tensor,
    groups: int,
)
    requires
        t.wf(),
        write_fault(t) is None,
        is_written(file, prefix, t),
        t.cols == groups * t.group_size,
    ensures
        file.entries@[0].name@ == field_name(prefix, Hqz4Field::Format),
        file.entries@[0].dtype == DType::U8,
        file.entries@[0].dims@ == Seq::<usize>::empty(),
        file.data@[0] matches UqffData::Bytes(held) && held@ == seq![7u8],
        file.entries@[1].name@ == field_name(prefix, Hqz4Field::Schema),
        file.entries@[1].dtype == DType::U32,
        file.entries@[1].dims@ == Seq::<usize>::empty(),
        file.data@[1] matches UqffData::Words(held) && held@ == seq![1u32],
        file.entries@[2].name@ == field_name(prefix, Hqz4Field::Layout),
        file.entries@[2].dtype == DType::U8,
        file.entries@[2].dims@ == Seq::<usize>::empty(),
        file.data@[2] matches UqffData::Bytes(held) && held@ == seq![0u8],
        file.entries@[3].name@ == field_name(prefix, Hqz4Field::Transform),
        file.entries@[3].dtype == DType::U8,
        file.entries@[3].dims@ == Seq::<usize>::empty(),
        file.data@[3] matches UqffData::Bytes(held) && held@ == seq![0u8],
        file.entries@[4].name@ == field_name(prefix, Hqz4Field::Bits),
        file.entries@[4].dtype == DType::U8,
        file.entries@[4].dims@ == Seq::<usize>::empty(),
        file.data@[4] matches UqffData::Bytes(held) && held@ == seq![4u8],
        file.entries@[5].name@ == field_name(prefix, Hqz4Field::GroupSize),
        file.entries@[5].dtype == DType::U32,
        file.entries@[5].dims@ == Seq::<usize>::empty(),
        file.data@[5] matches UqffData::Words(held) && held@ == seq![t.group_size as u32],
        file.entries@[6].name@ == field_name(prefix, Hqz4Field::Shape),
        file.entries@[6].dtype == DType::U32,
        file.entries@[6].dims@ == seq![2usize],
        file.data@[6] matches UqffData::Words(held) && held@ == seq![t.rows as u32, t.cols as u32],
        file.entries@[7].name@ == field_name(prefix, Hqz4Field::SeedLo),
        file.entries@[7].dtype == DType::U32,
        file.entries@[7].dims@ == Seq::<usize>::empty(),
        file.data@[7] matches UqffData::Words(held) && held@ == seq![(t.seed % 4294967296) as u32],
        file.entries@[8].name@ == field_name(prefix, Hqz4Field::SeedHi),
        file.entries@[8].dtype == DType::U32,
        file.entries@[8].dims@ == Seq::<usize>::empty(),
        file.data@[8] matches UqffData::Words(held) && held@ == seq![(t.seed / 4294967296) as u32],
        file.entries@[9].name@ == field_name(prefix, Hqz4Field::Codes),
        file.entries@[9].dtype == DType::U8,
        file.entries@[9].dims@ == seq![t.rows, t.cols / 2],
        file.data@[9] matches UqffData::Bytes(held) && held@ == t.codes@,
        file.entries@[10].name@ == field_name(prefix, Hqz4Field::Scales),
        file.entries@[10].dtype == DType::F32,
        file.entries@[10].dims@ == seq![t.rows, groups as usize],
        file.data@[10] matches UqffData::Words(held) && held@ == t.scales@,
        file.entries@.len() >= 11,
{
    let seed = t.seed;
    layout_facts(t.rows, t.cols, t.group_size);
    vstd::arithmetic::div_mod::lemma_fundamental_div_mod_converse(
        t.cols as int,
        t.group_size as int,
        groups,
        0,
    );
    assert(seed as u32 == (seed % 4294967296u64) as u32) by (bit_vector);
    assert((seed >> 32u64) as u32 == (seed / 4294967296u64) as u32) by (bit_vector);
}

/// A matrix is written exactly if it is no part of the columns of another, and its sizes fit in
/// 32 bits.
pub proof fn matrices_that_are_written(t: Hqz4Tensor)
    ensures
        write_fault(t) is None <==> t.group_offset == 0 && t.rows <= u32::MAX && t.cols <= u32::MAX
            && t.group_size <= u32::MAX,
        t.group_offset != 0 <==> write_fault(t) == Some(UqffError::InputShard),
{
}

/// The first fields of a layer are taken exactly if all four are there, with schema 1, layout 0,
/// transform 0 and 4 bits.
pub proof fn formats_that_are_read(file: UqffFile, prefix: Seq<char>)
    ensures
        format_fault(file, prefix) is None <==> {
            &&& word_field(file, prefix, Hqz4Field::Schema) == Some(1u32)
            &&& byte_field(file, prefix, Hqz4Field::Layout) == Some(0u8)
            &&& byte_field(file, prefix, Hqz4Field::Transform) == Some(0u8)
            &&& byte_field(file, prefix, Hqz4Field::Bits) == Some(4u8)
        },
{
}

/// The shapes of a layer are taken exactly if it has rows and columns and a group size that make
/// a matrix, codes with two columns in a byte and scales with one for each group.
pub proof fn shapes_that_are_read(
    file: UqffFile,
    prefix: Seq<char>,
    rows: u32,
    cols: u32,
    group_size: u32,
    groups: int,
)
    requires
        words_field(file, prefix, Hqz4Field::Shape) == Some(seq![rows, cols]),
        word_field(file, prefix, Hqz4Field::GroupSize) == Some(group_size),
        layout_fault(rows as usize, cols as usize, group_size as usize) is None,
        cols == groups * group_size,
    ensures
        shape_fault(file, prefix) is None <==> {
            &&& dims_field(file, prefix, Hqz4Field::Codes) == Some(
                seq![rows as usize, cols as usize / 2],
            )
            &&& dims_field(file, prefix, Hqz4Field::Scales) == Some(
                seq![rows as usize, groups as usize],
            )
        },
{
    vstd::arithmetic::div_mod::lemma_fundamental_div_mod_converse(
        cols as int,
        group_size as int,
        groups,
        0,
    );
    layout_facts(rows as usize, cols as usize, group_size as usize);
    let (w, s) = (
        seq![rows as usize, cols as usize / 2],
        seq![rows as usize, groups as usize],
    );
    let codes = dims_field(file, prefix, Hqz4Field::Codes);
    let scales = dims_field(file, prefix, Hqz4Field::Scales);
    if codes is Some {
        assert(codes->0 == w <==> codes->0 =~= w);
    }
    if scales is Some {
        assert(scales->0 == s <==> scales->0 =~= s);
    }
}

/// The values of a layer are taken exactly if both words of the seed, the codes and the scales
/// are there, the scales as 16- or 32-bit floats, and the parts make a matrix that begins with
/// the first group.
pub proof fn values_that_are_read(
    file: UqffFile,
    prefix: Seq<char>,
    rows: u32,
    cols: u32,
    group_size: u32,
)
    requires
        words_field(file, prefix, Hqz4Field::Shape) == Some(seq![rows, cols]),
        word_field(file, prefix, Hqz4Field::GroupSize) == Some(group_size),
    ensures
        value_fault(file, prefix) is None <==> {
            &&& word_field(file, prefix, Hqz4Field::SeedLo) is Some
            &&& word_field(file, prefix, Hqz4Field::SeedHi) is Some
            &&& stored_codes(file, prefix) is Some
            &&& stored_scales(file, prefix) is Some
            &&& (stored_scales(file, prefix)->0).0 == DType::F16 || (stored_scales(
                file,
                prefix,
            )->0).0 == DType::F32
            &&& parts_fault(
                rows as usize,
                cols as usize,
                group_size as usize,
                0,
                (stored_scales(file, prefix)->0).1,
                stored_codes(file, prefix)->0,
            ) is None
        },
        read_fault(file, prefix) is None <==> format_fault(file, prefix) is None && shape_fault(
            file,
            prefix,
        ) is None && value_fault(file, prefix) is None,
{
}

/// The matrix of a layer is that of its parts.
pub proof fn read_matrix_is_that_of_its_parts(
    file: UqffFile,
    prefix: Seq<char>,
    t: Hqz4Tensor,
    rows: u32,
    cols: u32,
    lo: u32,
    hi: u32,
)
    requires
        is_stored(file, prefix, t),
        words_field(file, prefix, Hqz4Field::Shape) == Some(seq![rows, cols]),
        word_field(file, prefix, Hqz4Field::SeedLo) == Some(lo),
        word_field(file, prefix, Hqz4Field::SeedHi) == Some(hi),
    ensures
        t.rows == rows,
        t.cols == cols,
        t.seed == lo + 4294967296 * hi,
        t.group_offset == 0,
        Some(t.group_size as u32) == word_field(file, prefix, Hqz4Field::GroupSize)
            || word_field(file, prefix, Hqz4Field::GroupSize) is None,
        stored_codes(file, prefix) is Some ==> stored_codes(file, prefix) == Some(t.codes@),
        stored_scales(file, prefix) is Some ==> (stored_scales(file, prefix)->0).1 == t.scales@,
{
    seed_is_two_words(lo, hi);
}

/// Parts of a layer are found under their names: what is first under the name counts, as one
/// value of its type or as a list.
pub proof fn parts_are_found_under_their_names(
    file: UqffFile,
    prefix: Seq<char>,
    field: Hqz4Field,
    i: int,
)
    requires
        0 <= i < file.entries@.len(),
        file.entries@[i].name@ == field_name(prefix, field),
        forall|j: int| 0 <= j < i ==> (#[trigger] file.entries@[j]).name@ != field_name(
            prefix,
            field,
        ),
    ensures
        field_index(file, prefix, field) == Some(i),
        dims_field(file, prefix, field) == Some(file.entries@[i].dims@),
        file.data@[i] matches UqffData::Bytes(bytes) ==> {
            &&& word_field(file, prefix, field) is None
            &&& words_field(file, prefix, field) is None
            &&& byte_field(file, prefix, field) == if file.entries@[i].dtype == DType::U8
                && file.entries@[i].dims@.len() == 0 && bytes@.len() == 1 {
                Some(bytes@[0])
            } else {
                None
            }
        },
        file.data@[i] matches UqffData::Words(words) ==> {
            &&& byte_field(file, prefix, field) is None
            &&& word_field(file, prefix, field) == if file.entries@[i].dtype == DType::U32
                && file.entries@[i].dims@.len() == 0 && words@.len() == 1 {
                Some(words@[0])
            } else {
                None
            }
            &&& words_field(file, prefix, field) == if file.entries@[i].dtype == DType::U32
                && file.entries@[i].dims@.len() == 1 {
                Some(words@)
            } else {
                None
            }
        },
{
    first_named_facts(file.entries@, field_name(prefix, field));
}

/// A written file is told by its header: single bytes for the format, the layout, the transform
/// and the bits, single words for the schema, the group size and the seed, a list of words for
/// the shape, bytes for the codes and floats of 16 or 32 bits for the scales.
pub proof fn headers_tell_their_kinds(entry: UqffEntry, field: Hqz4Field)
    ensures
        field == Hqz4Field::Format || field == Hqz4Field::Layout || field == Hqz4Field::Transform
            || field == Hqz4Field::Bits ==> (header_entry_fits(entry, field) <==> entry.dtype
            == DType::U8 && entry.dims@ == Seq::<usize>::empty()),
        field == Hqz4Field::Schema || field == Hqz4Field::GroupSize || field == Hqz4Field::SeedLo
            || field == Hqz4Field::SeedHi ==> (header_entry_fits(entry, field) <==> entry.dtype
            == DType::U32 && entry.dims@ == Seq::<usize>::empty()),
        field == Hqz4Field::Shape ==> (header_entry_fits(entry, field) <==> entry.dtype
            == DType::U32 && entry.dims@.len() == 1),
        field == Hqz4Field::Codes ==> (header_entry_fits(entry, field) <==> entry.dtype
            == DType::U8),
        field == Hqz4Field::Scales ==> (header_entry_fits(entry, field) <==> entry.dtype
            == DType::F16 || entry.dtype == DType::F32),
        UQFF_HYPERQUANT == 7,
{
    if entry.dims@.len() == 0 {
        assert(entry.dims@ =~= Seq::<usize>::empty());
    }
}

/// A weight that has any other part than those of an HQZ4 weight, or lacks one of them, is none.
pub proof fn other_weights_are_told_apart(entries: Seq<UqffEntry>, i: int, field: Hqz4Field)
    requires
        header_matches(entries),
    ensures
        field != Hqz4Field::Bias ==> exists|j: int|
            0 <= j < entries.len() && (#[trigger] entries[j]).name@ == field.suffix_text()
                && header_entry_fits(entries[j], field),
        0 <= i < entries.len() && entries[i].name@.len() >= 6 && entries[i].name@.take(6)
            == "weight"@ ==> exists|other: Hqz4Field|
            other != Hqz4Field::Bias && entries[i].name@ == #[trigger] other.suffix_text(),
{
    if field != Hqz4Field::Bias {
        assert(header_has(entries, field));
        first_named_facts(entries, field.suffix_text());
        let j = first_named(entries, field.suffix_text())->0;
        assert(entries[j].name@ == field.suffix_text());
    }
    if 0 <= i < entries.len() && is_weight_suffix(entries[i].name@) {
        assert(is_hqz4_suffix(entries[i].name@));
    }
}

} // verus!
