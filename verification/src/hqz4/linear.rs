//! What an HQZ4 layer decides before any tensor work is done.
use crate::dtype::DType;
use crate::hqz4::shard::{is_column_shard, is_row_shard, shard_fault};
use crate::hqz4::tensor::{Hqz4Error, Hqz4Tensor};
use crate::hqz4::uqff::{is_stored, read_fault, UqffError, UqffFile};
use crate::isq::IsqType;
use crate::tensor::DeviceLocation;
use vstd::prelude::*;

verus! {

/// Why a layer refuses an operation.
#[derive(Clone, Copy, Debug, PartialEq, Eq, Structural)]
pub enum LinearError {
    /// No HQZ4 layer can be on the device.
    Device,
    /// The bias is not as wide as the output.
    BiasShape { rows: usize },
    /// The tensors are on different devices.
    DeviceMismatch,
    /// The kernels do not take activations of this type.
    ActivationDtype { dtype: DType },
    /// Activations cannot be quantized for this layer.
    Unavailable,
    /// The activation was quantized in another way than this layer takes.
    Scheme,
    /// The importances of the inputs are not taken into account.
    Imatrix,
    /// The layer cannot be written as another quantization.
    SerializedType { isq: IsqType },
}

/// The devices that a layer can be on; `kernels` tells whether the CUDA kernels are there.
pub open spec fn device_is_supported(location: DeviceLocation, kernels: bool) -> bool {
    match location {
        DeviceLocation::Cpu => true,
        DeviceLocation::Cuda { .. } => kernels,
        DeviceLocation::Metal { .. } => false,
    }
}

/// Whether a layer can be on a device.
pub fn supports_device_location(location: DeviceLocation, kernels: bool) -> (yes: bool)
    ensures
        yes == device_is_supported(location, kernels),
{
    match location {
        DeviceLocation::Cpu => true,
        DeviceLocation::Cuda { .. } => kernels,
        DeviceLocation::Metal { .. } => false,
    }
}

/// Refuses devices that a layer cannot be on.
pub fn ensure_supported_device(location: DeviceLocation, kernels: bool) -> (valid: Result<
    (),
    LinearError,
>)
    ensures
        valid == if device_is_supported(location, kernels) {
            Ok::<(), LinearError>(())
        } else {
            Err(LinearError::Device)
        },
{
    if supports_device_location(location, kernels) {
        Ok(())
    } else {
        Err(LinearError::Device)
    }
}

/// What is wrong with a layer that is put on a device with a bias of this shape.
pub open spec fn layer_fault(
    rows: usize,
    bias: Option<Seq<usize>>,
    location: DeviceLocation,
    kernels: bool,
) -> Option<LinearError> {
    if !device_is_supported(location, kernels) {
        Some(LinearError::Device)
    } else if bias is Some && bias->0 != seq![rows] {
        Some(LinearError::BiasShape { rows })
    } else {
        None
    }
}

/// Checks a layer that is put on a device, with the shape of its bias if it has one.
pub fn check_layer(
    weight: &Hqz4Tensor,
    bias: Option<&Vec<usize>>,
    location: DeviceLocation,
    kernels: bool,
) -> (valid: Result<(), LinearError>)
    ensures
        ({
            let dims = match bias {
                Some(dims) => Some(dims@),
                None => None,
            };
            match valid {
                Ok(_) => layer_fault(weight.rows, dims, location, kernels) is None,
                Err(e) => layer_fault(weight.rows, dims, location, kernels) == Some(e),
            }
        }),
{
    ensure_supported_device(location, kernels)?;
    if let Some(dims) = bias {
        if dims.len() != 1 || dims[0] != weight.rows {
            assert(dims@ != seq![weight.rows]) by {
                if dims@ == seq![weight.rows] {
                    assert(dims@.len() == 1 && dims@[0] == weight.rows);
                }
            }
            return Err(LinearError::BiasShape { rows: weight.rows });
        }
        assert(dims@ =~= seq![weight.rows]);
    }
    Ok(())
}

/// How an activation is quantized for a layer.
#[derive(Clone, Copy, Debug, PartialEq, Eq, Structural)]
pub struct ActivationQuantizationScheme {
    pub dtype: DType,
    pub block_rows: usize,
    pub block_cols: usize,
    pub seed: u64,
    pub group_offset: usize,
}

/// How activations are quantized for a matrix on a device.
pub open spec fn scheme_of(weight: Hqz4Tensor, location: DeviceLocation, kernels: bool) -> Option<
    ActivationQuantizationScheme,
> {
    if location is Cuda && kernels {
        Some(
            ActivationQuantizationScheme {
                dtype: DType::U8,
                block_rows: 1,
                block_cols: weight.group_size,
                seed: weight.seed,
                group_offset: weight.group_offset,
            },
        )
    } else {
        None
    }
}

/// How activations are quantized for a matrix: by input groups, on CUDA devices only.
pub fn activation_quantization_scheme(
    weight: &Hqz4Tensor,
    location: DeviceLocation,
    kernels: bool,
) -> (scheme: Option<ActivationQuantizationScheme>)
    ensures
        scheme == scheme_of(*weight, location, kernels),
{
    match location {
        DeviceLocation::Cuda { .. } => if kernels {
            Some(
                ActivationQuantizationScheme {
                    dtype: DType::U8,
                    block_rows: 1,
                    block_cols: weight.group_size,
                    seed: weight.seed,
                    group_offset: weight.group_offset,
                },
            )
        } else {
            None
        },
        _ => None,
    }
}

/// The type in which the kernels take an activation.
pub open spec fn kernel_dtype_of(dtype: DType) -> Option<DType> {
    match dtype {
        DType::F16 | DType::F32 => Some(dtype),
        DType::BF16 => Some(DType::F16),
        _ => None,
    }
}

/// The type in which the kernels take an activation.
pub fn kernel_activation_dtype(dtype: DType) -> (kernel: Result<DType, LinearError>)
    ensures
        match kernel {
            Ok(k) => kernel_dtype_of(dtype) == Some(k),
            Err(e) => kernel_dtype_of(dtype) is None && e == (LinearError::ActivationDtype {
                dtype,
            }),
        },
{
    match dtype {
        DType::F16 | DType::F32 => Ok(dtype),
        DType::BF16 => Ok(DType::F16),
        _ => Err(LinearError::ActivationDtype { dtype }),
    }
}

/// The type that the lookup kernel writes, for an output of this type.
pub fn embedding_kernel_dtype(output: DType) -> (kernel: DType)
    ensures
        kernel == if output == DType::F16 {
            DType::F16
        } else {
            DType::F32
        },
{
    if output == DType::F16 {
        DType::F16
    } else {
        DType::F32
    }
}

/// The shape of the rows that are looked up.
pub fn embedding_shape(ids: &Vec<usize>, cols: usize) -> (shape: Vec<usize>)
    ensures
        shape@ == ids@.push(cols),
{
    let mut shape: Vec<usize> = ids.clone();
    assert(shape@ =~= ids@);
    shape.push(cols);
    shape
}

/// How a layer is applied.
#[derive(Clone, Copy, Debug, PartialEq, Eq, Structural)]
pub enum ForwardRoute {
    /// By the CUDA kernels.
    Kernels,
    /// By decoding the matrix first.
    Decoded,
}

/// What is wrong with applying a layer to a tensor on a device.
pub open spec fn forward_fault(
    location: DeviceLocation,
    same_device: bool,
    kernels: bool,
) -> Option<LinearError> {
    if !device_is_supported(location, kernels) {
        Some(LinearError::Device)
    } else if !same_device {
        Some(LinearError::DeviceMismatch)
    } else {
        None
    }
}

/// How a layer is applied to a tensor on a device; `same_device` tells whether the layer is on
/// that device too.
pub fn plan_forward(location: DeviceLocation, same_device: bool, kernels: bool) -> (route: Result<
    ForwardRoute,
    LinearError,
>)
    ensures
        match route {
            Ok(r) => {
                &&& forward_fault(location, same_device, kernels) is None
                &&& r == if location is Cuda {
                    ForwardRoute::Kernels
                } else {
                    ForwardRoute::Decoded
                }
            },
            Err(e) => forward_fault(location, same_device, kernels) == Some(e),
        },
{
    ensure_supported_device(location, kernels)?;
    if !same_device {
        return Err(LinearError::DeviceMismatch);
    }
    match location {
        DeviceLocation::Cuda { .. } => Ok(ForwardRoute::Kernels),
        _ => Ok(ForwardRoute::Decoded),
    }
}

/// What is wrong with quantizing an activation for a layer.
pub open spec fn quantize_fault(
    scheme: Option<ActivationQuantizationScheme>,
    same_device: bool,
    dtype: DType,
) -> Option<LinearError> {
    if scheme is None {
        Some(LinearError::Unavailable)
    } else if !same_device {
        Some(LinearError::DeviceMismatch)
    } else if kernel_dtype_of(dtype) is None {
        Some(LinearError::ActivationDtype { dtype })
    } else {
        None
    }
}

/// Decides in which type an activation is handed to the kernel that quantizes it.
pub fn plan_quantize_activation(
    scheme: Option<ActivationQuantizationScheme>,
    same_device: bool,
    dtype: DType,
) -> (plan: Result<(ActivationQuantizationScheme, DType), LinearError>)
    ensures
        match plan {
            Ok((s, kernel)) => {
                &&& quantize_fault(scheme, same_device, dtype) is None
                &&& scheme == Some(s)
                &&& kernel_dtype_of(dtype) == Some(kernel)
            },
            Err(e) => quantize_fault(scheme, same_device, dtype) == Some(e),
        },
{
    match scheme {
        None => Err(LinearError::Unavailable),
        Some(s) => {
            if !same_device {
                return Err(LinearError::DeviceMismatch);
            }
            let kernel: DType = kernel_activation_dtype(dtype)?;
            Ok((s, kernel))
        },
    }
}

/// What is wrong with applying a layer to an activation that is quantized already.
pub open spec fn quantized_forward_fault(
    scheme: Option<ActivationQuantizationScheme>,
    activation: ActivationQuantizationScheme,
    same_device: bool,
) -> Option<LinearError> {
    if scheme is None {
        Some(LinearError::Unavailable)
    } else if activation != scheme->0 {
        Some(LinearError::Scheme)
    } else if !same_device {
        Some(LinearError::DeviceMismatch)
    } else {
        None
    }
}

/// Checks an activation that is quantized already against the way a layer takes it.
pub fn check_quantized_activation(
    scheme: Option<ActivationQuantizationScheme>,
    activation: ActivationQuantizationScheme,
    same_device: bool,
) -> (valid: Result<(), LinearError>)
    ensures
        match valid {
            Ok(_) => quantized_forward_fault(scheme, activation, same_device) is None,
            Err(e) => quantized_forward_fault(scheme, activation, same_device) == Some(e),
        },
{
    match scheme {
        None => Err(LinearError::Unavailable),
        Some(s) => if activation != s {
            Err(LinearError::Scheme)
        } else if !same_device {
            Err(LinearError::DeviceMismatch)
        } else {
            Ok(())
        },
    }
}

/// What is wrong with a change that is to be added to a layer.
pub open spec fn delta_fault(location: DeviceLocation, same_device: bool, kernels: bool) -> Option<
    LinearError,
> {
    if !device_is_supported(location, kernels) {
        Some(LinearError::Device)
    } else if !same_device {
        Some(LinearError::DeviceMismatch)
    } else {
        None
    }
}

/// Checks a change that is to be added to a layer.
pub fn check_delta(location: DeviceLocation, same_device: bool, kernels: bool) -> (valid: Result<
    (),
    LinearError,
>)
    ensures
        match valid {
            Ok(_) => delta_fault(location, same_device, kernels) is None,
            Err(e) => delta_fault(location, same_device, kernels) == Some(e),
        },
{
    ensure_supported_device(location, kernels)?;
    if same_device {
        Ok(())
    } else {
        Err(LinearError::DeviceMismatch)
    }
}

/// What becomes of a layer that is quantized again.
#[derive(Clone, Copy, Debug, PartialEq, Eq, Structural)]
pub enum IsqStep {
    /// It stays as it is.
    Keep,
    /// It goes to another device.
    Move,
    /// It is decoded, and quantized anew.
    Requantize,
}

/// Whether a layer keeps its codes when it is asked for a quantization.
pub open spec fn keeps_codes(isq: Option<IsqType>, imatrix: bool) -> bool {
    isq is None || (isq == Some(IsqType::HQZ4) && !imatrix)
}

/// What becomes of a layer that is asked for a quantization on a device.
pub fn plan_isq(
    isq: Option<IsqType>,
    imatrix: bool,
    location: DeviceLocation,
    same_device: bool,
    kernels: bool,
) -> (step: Result<IsqStep, LinearError>)
    ensures
        match step {
            Ok(IsqStep::Keep) => {
                &&& keeps_codes(isq, imatrix)
                &&& device_is_supported(location, kernels)
                &&& same_device
            },
            Ok(IsqStep::Move) => {
                &&& keeps_codes(isq, imatrix)
                &&& device_is_supported(location, kernels)
                &&& !same_device
            },
            Ok(IsqStep::Requantize) => isq is Some && isq != Some(IsqType::HQZ4),
            Err(LinearError::Device) => keeps_codes(isq, imatrix) && !device_is_supported(
                location,
                kernels,
            ),
            Err(e) => isq == Some(IsqType::HQZ4) && imatrix && e == LinearError::Imatrix,
        },
{
    let hqz4: bool = match isq {
        Some(IsqType::HQZ4) => true,
        _ => false,
    };
    if isq.is_none() || (hqz4 && !imatrix) {
        ensure_supported_device(location, kernels)?;
        return Ok(
            if same_device {
                IsqStep::Keep
            } else {
                IsqStep::Move
            },
        );
    }
    if hqz4 {
        return Err(LinearError::Imatrix);
    }
    Ok(IsqStep::Requantize)
}

/// Checks the type that a layer is to be written as.
pub fn check_serialized_type(isq: IsqType) -> (valid: Result<(), LinearError>)
    ensures
        valid == if isq == IsqType::HQZ4 {
            Ok::<(), LinearError>(())
        } else {
            Err(LinearError::SerializedType { isq })
        },
{
    if isq == IsqType::HQZ4 {
        Ok(())
    } else {
        Err(LinearError::SerializedType { isq })
    }
}

/// A part of a layer: rows (`dim` 0) or columns (`dim` 1) from `start` on.
#[derive(Clone, Copy, Debug, PartialEq, Eq, Structural)]
pub struct ShardRange {
    pub dim: usize,
    pub start: usize,
    pub len: usize,
}

/// Why a layer cannot be loaded.
#[derive(Clone, Copy, Debug, PartialEq, Eq, Structural)]
pub enum LoadError {
    /// No HQZ4 layer can be on the device.
    Device,
    /// The layer cannot be read.
    Layer { error: UqffError },
    /// The part cannot be cut out.
    Shard { error: Hqz4Error },
}

/// Loads the matrix of a layer, or a part of it, for a device.
pub fn from_uqff(
    file: &UqffFile,
    prefix: &str,
    shard: Option<ShardRange>,
    location: DeviceLocation,
    kernels: bool,
) -> (tensor: Result<Hqz4Tensor, LoadError>)
    requires
        file.wf(),
    ensures
        match tensor {
            Ok(t) => {
                &&& device_is_supported(location, kernels)
                &&& read_fault(*file, prefix@) is None
                &&& t.wf()
                &&& match shard {
                    None => is_stored(*file, prefix@, t),
                    Some(s) => exists|full: Hqz4Tensor|
                        {
                            &&& full.wf()
                            &&& #[trigger] is_stored(*file, prefix@, full)
                            &&& shard_fault(full, s.dim, s.start, s.len) is None
                            &&& if s.dim == 0 {
                                is_row_shard(full, t, s.start as int, s.len as int)
                            } else {
                                is_column_shard(full, t, s.start as int, s.len as int)
                            }
                        },
                }
            },
            Err(LoadError::Device) => !device_is_supported(location, kernels),
            Err(LoadError::Layer { error }) => device_is_supported(location, kernels)
                && read_fault(*file, prefix@) == Some(error),
            Err(LoadError::Shard { error }) => {
                &&& device_is_supported(location, kernels)
                &&& read_fault(*file, prefix@) is None
                &&& shard is Some
                &&& exists|full: Hqz4Tensor| #[trigger]
                    is_stored(*file, prefix@, full) && shard_fault(
                        full,
                        shard->0.dim,
                        shard->0.start,
                        shard->0.len,
                    ) == Some(error)
            },
        },
{
    if !supports_device_location(location, kernels) {
        return Err(LoadError::Device);
    }
    let full: Hqz4Tensor = match file.read_hqz4(prefix) {
        Ok(full) => full,
        Err(error) => {
            return Err(LoadError::Layer { error });
        },
    };
    match shard {
        None => Ok(full),
        Some(s) => match full.shard(s.dim, s.start, s.len) {
            Ok(part) => Ok(part),
            Err(error) => Err(LoadError::Shard { error }),
        },
    }
}

/// Where the bias of a part of a layer is in the bias of the whole: a part of the rows has its
/// part of it, a part of the columns has none.
pub fn bias_range(shard: Option<ShardRange>, rows: usize) -> (range: Option<(usize, usize)>)
    ensures
        range == match shard {
            None => Some((0usize, rows)),
            Some(s) => if s.dim == 0 {
                Some((s.start, s.len))
            } else {
                None
            },
        },
{
    match shard {
        None => Some((0, rows)),
        Some(s) => if s.dim == 0 {
            Some((s.start, s.len))
        } else {
            None
        },
    }
}

/// A layer can be in memory, on a CUDA device if the kernels are there, and nowhere else.
pub proof fn layers_are_in_memory_or_with_kernels(
    location: DeviceLocation,
    kernels: bool,
    same_device: bool,
)
    ensures
        device_is_supported(location, kernels) <==> location is Cpu || (location is Cuda
            && kernels),
        forward_fault(location, same_device, kernels) is None <==> device_is_supported(
            location,
            kernels,
        ) && same_device,
        delta_fault(location, same_device, kernels) is None <==> device_is_supported(
            location,
            kernels,
        ) && same_device,
        forward_fault(location, same_device, kernels) == Some(LinearError::Device)
            <==> !device_is_supported(location, kernels),
        delta_fault(location, same_device, kernels) == Some(LinearError::Device)
            <==> !device_is_supported(location, kernels),
{
}

/// A layer is put on a device exactly if it can be there and its bias, if it has one, has an
/// element for each row.
pub proof fn biases_have_an_element_for_each_row(
    rows: usize,
    bias: Option<Seq<usize>>,
    location: DeviceLocation,
    kernels: bool,
)
    ensures
        layer_fault(rows, bias, location, kernels) is None <==> device_is_supported(
            location,
            kernels,
        ) && (bias matches Some(dims) ==> dims.len() == 1 && dims[0] == rows),
        layer_fault(rows, bias, location, kernels) == Some(LinearError::Device)
            <==> !device_is_supported(location, kernels),
{
    if bias is Some && bias->0.len() == 1 && bias->0[0] == rows {
        assert(bias->0 =~= seq![rows]);
    }
    if bias is Some && bias->0 == seq![rows] {
        assert(bias->0.len() == 1 && bias->0[0] == rows);
    }
}

/// Activations are quantized for a matrix on CUDA devices only, to bytes, row by row, in the
/// groups of the matrix and with its signs. An activation is taken by another matrix exactly if
/// it would be quantized the same way for it.
pub proof fn activations_are_quantized_as_the_matrix_asks(
    weight: Hqz4Tensor,
    other: Hqz4Tensor,
    location: DeviceLocation,
    kernels: bool,
    same_device: bool,
)
    ensures
        scheme_of(weight, location, kernels) is Some <==> location is Cuda && kernels,
        scheme_of(weight, location, kernels) matches Some(scheme) ==> {
            &&& scheme.dtype == DType::U8
            &&& scheme.block_rows == 1
            &&& scheme.block_cols == weight.group_size
            &&& scheme.seed == weight.seed
            &&& scheme.group_offset == weight.group_offset
            &&& quantized_forward_fault(
                scheme_of(other, location, kernels),
                scheme,
                same_device,
            ) is None <==> {
                &&& same_device
                &&& other.group_size == weight.group_size
                &&& other.seed == weight.seed
                &&& other.group_offset == weight.group_offset
            }
        },
{
}

/// The kernels take 16-bit and 32-bit floats as they are, and wide-ranged 16-bit floats as plain
/// ones.
pub proof fn kernels_take_floats(
    dtype: DType,
    scheme: Option<ActivationQuantizationScheme>,
    same_device: bool,
)
    ensures
        kernel_dtype_of(dtype) == Some(DType::F32) <==> dtype == DType::F32,
        kernel_dtype_of(dtype) == Some(DType::F16) <==> dtype == DType::F16 || dtype == DType::BF16,
        kernel_dtype_of(dtype) is Some <==> dtype == DType::F16 || dtype == DType::BF16 || dtype
            == DType::F32,
        quantize_fault(scheme, same_device, dtype) is None <==> scheme is Some && same_device
            && kernel_dtype_of(dtype) is Some,
        quantize_fault(scheme, same_device, dtype) == Some(LinearError::Unavailable)
            <==> scheme is None,
{
}

/// A layer keeps its codes if no quantization is asked for, or its own without importances.
pub proof fn codes_are_kept_for_their_own_quantization(isq: Option<IsqType>, imatrix: bool)
    ensures
        keeps_codes(isq, imatrix) <==> match isq {
            None => true,
            Some(asked) => asked == IsqType::HQZ4 && !imatrix,
        },
{
}

} // verus!
