use half::f16;
use quantcore::dtype::DType;
use quantcore::hqz4::codes::{read_code, sign_is_negative, splitmix64, write_code, HQZ4_MAX_LEVEL};
use quantcore::hqz4::kernels::{
    plan_quantize, CudaMatrix, DeviceTag, EmbeddingStep, KernelError, KernelTensor, MatmulInputs,
    MatrixShape, QuantizedInputs,
};
use quantcore::hqz4::linear::{
    activation_quantization_scheme, bias_range, check_layer, check_quantized_activation,
    check_delta, check_serialized_type, embedding_kernel_dtype, embedding_shape, ensure_supported_device,
    from_uqff, kernel_activation_dtype, plan_forward, plan_isq, plan_quantize_activation,
    ForwardRoute, IsqStep, LinearError, LoadError, ShardRange,
};
use quantcore::hqz4::tensor::{
    check_weights, group_scale, Hqz4Config, Hqz4Error, Hqz4Tensor, HQZ4_DEFAULT_GROUP_SIZE,
};
use quantcore::hqz4::uqff::{
    inspect_uqff_header, Hqz4Bias, Hqz4Field, UqffData, UqffEntry, UqffError, UqffFile,
};
use quantcore::isq::IsqType;
use quantcore::tensor::DeviceLocation;

const TEST_ROWS: usize = 5;
const TEST_COLS: usize = 128;
const TEST_GROUP_SIZE: usize = 32;
const TEST_SEED: u64 = 0x5eed_61;
const TEST_MAX_RELATIVE_L2: f32 = 0.12;
const TEST_MIN_COSINE: f32 = 0.995;
const PREFIX: &str = "model.layers.0.mlp.down_proj";

fn test_weights() -> Vec<f32> {
    (0..TEST_ROWS * TEST_COLS)
        .map(|index| {
            let index = index as f32;
            (index * 0.037).sin() * 0.35 + (index * 0.011).cos() * 0.08
        })
        .collect()
}

fn test_config() -> Hqz4Config {
    Hqz4Config {
        group_size: TEST_GROUP_SIZE,
        seed: TEST_SEED,
    }
}

fn normalized_hadamard(values: &mut [f32]) {
    let mut half = 1;
    while half < values.len() {
        let span = half * 2;
        for start in (0..values.len()).step_by(span) {
            for offset in 0..half {
                let left = values[start + offset];
                let right = values[start + offset + half];
                values[start + offset] = left + right;
                values[start + offset + half] = left - right;
            }
        }
        half = span;
    }
    let normalization = 1.0 / (values.len() as f32).sqrt();
    for value in values {
        *value *= normalization;
    }
}

fn apply_signs(values: &mut [f32], seed: u64, group: usize) {
    for (index, value) in values.iter_mut().enumerate() {
        if sign_is_negative(seed, group, index) {
            *value = -*value;
        }
    }
}

fn rotate_weight_group(values: &mut [f32], seed: u64, group: usize) {
    apply_signs(values, seed, group);
    normalized_hadamard(values);
}

fn inverse_rotate_weight_group(values: &mut [f32], seed: u64, group: usize) {
    normalized_hadamard(values);
    apply_signs(values, seed, group);
}

fn bits(values: &[f32]) -> Vec<u32> {
    values.iter().map(|value| value.to_bits()).collect()
}

fn largest(values: &[f32]) -> f32 {
    values.iter().copied().map(f32::abs).fold(0f32, f32::max)
}

fn encode(
    weights: &[f32],
    rows: usize,
    cols: usize,
    cfg: Hqz4Config,
) -> Result<Hqz4Tensor, Hqz4Error> {
    check_weights(&bits(weights), rows, cols, cfg)?;
    let groups = cols / cfg.group_size;
    let mut scales = Vec::new();
    let mut codes = vec![0u8; rows * cols / 2];
    for row in 0..rows {
        for group in 0..groups {
            let start = row * cols + group * cfg.group_size;
            let mut rotated = weights[start..start + cfg.group_size].to_vec();
            rotate_weight_group(&mut rotated, cfg.seed, group);
            let max_abs = largest(&rotated);
            let level = max_abs / HQZ4_MAX_LEVEL as f32;
            let scale = group_scale(max_abs.to_bits(), level.to_bits(), row, group)?;
            scales.push(scale);
            let scale = f32::from_bits(scale);
            for (offset, value) in rotated.iter().enumerate() {
                let quantized = if scale == 0.0 {
                    0
                } else {
                    (value / scale).round().clamp(-7.0, 7.0) as i8
                };
                write_code(&mut codes, start + offset, quantized);
            }
        }
    }
    Hqz4Tensor::from_parts(rows, cols, cfg, scales, codes)
}

fn decode_rotated_row(tensor: &Hqz4Tensor, row: usize) -> Result<Vec<f32>, Hqz4Error> {
    let rotated = tensor.rotated_row(row)?;
    Ok(rotated
        .codes
        .iter()
        .enumerate()
        .map(|(i, code)| *code as f32 * f32::from_bits(rotated.scales[i / tensor.group_size()]))
        .collect())
}

fn decode_row(tensor: &Hqz4Tensor, row: usize) -> Result<Vec<f32>, Hqz4Error> {
    let mut values = decode_rotated_row(tensor, row)?;
    for (group, chunk) in values.chunks_exact_mut(tensor.group_size()).enumerate() {
        inverse_rotate_weight_group(chunk, tensor.seed(), tensor.group_offset() + group);
    }
    Ok(values)
}

fn decode(tensor: &Hqz4Tensor) -> Result<Vec<f32>, Hqz4Error> {
    let mut values = Vec::new();
    for row in 0..tensor.rows() {
        values.extend(decode_row(tensor, row)?);
    }
    Ok(values)
}

fn transform_activation(tensor: &Hqz4Tensor, activation: &[f32]) -> Result<Vec<f32>, Hqz4Error> {
    tensor.check_activation(&bits(activation))?;
    let mut values = activation.to_vec();
    for (group, chunk) in values.chunks_exact_mut(tensor.group_size()).enumerate() {
        rotate_weight_group(chunk, tensor.seed(), tensor.group_offset() + group);
    }
    Ok(values)
}

fn dot(left: &[f32], right: &[f32]) -> f32 {
    left.iter().zip(right).map(|(a, b)| a * b).sum()
}

fn matvec(tensor: &Hqz4Tensor, activation: &[f32]) -> Result<Vec<f32>, Hqz4Error> {
    let activation = transform_activation(tensor, activation)?;
    (0..tensor.rows())
        .map(|row| Ok(dot(&decode_rotated_row(tensor, row)?, &activation)))
        .collect()
}

fn a8_matvec_reference(
    encoded: &Hqz4Tensor,
    activation: &[f32],
) -> Result<Vec<f32>, Hqz4Error> {
    let activation = transform_activation(encoded, activation)?;
    let groups_per_row = encoded.cols() / encoded.group_size();
    let mut quantized = vec![0i8; encoded.cols()];
    let mut activation_scales = vec![0f32; groups_per_row];
    for group in 0..groups_per_row {
        let start = group * encoded.group_size();
        let values = &activation[start..start + encoded.group_size()];
        let max_abs = largest(values);
        let scale = if max_abs == 0.0 { 0.0 } else { max_abs / 127.0 };
        activation_scales[group] = scale;
        for (offset, value) in values.iter().copied().enumerate() {
            quantized[start + offset] = if scale == 0.0 {
                0
            } else {
                (value / scale).round().clamp(-127.0, 127.0) as i8
            };
        }
    }

    let mut output = vec![0f32; encoded.rows()];
    for (row, output) in output.iter_mut().enumerate() {
        for group in 0..groups_per_row {
            let start = group * encoded.group_size();
            let dot = (0..encoded.group_size())
                .map(|offset| {
                    i32::from(read_code(encoded.codes(), row * encoded.cols() + start + offset))
                        * i32::from(quantized[start + offset])
                })
                .sum::<i32>();
            *output += dot as f32
                * f32::from_bits(encoded.scales()[row * groups_per_row + group])
                * activation_scales[group];
        }
    }
    Ok(output)
}

fn test_tensor() -> Hqz4Tensor {
    encode(&test_weights(), TEST_ROWS, TEST_COLS, test_config()).expect("weights encode")
}

fn test_bias() -> Hqz4Bias {
    let values: Vec<f32> = (0..TEST_ROWS).map(|row| row as f32 * 0.125 - 0.25).collect();
    Hqz4Bias {
        dtype: DType::F32,
        dims: vec![TEST_ROWS],
        data: UqffData::Words(bits(&values)),
    }
}

fn test_file(prefix: &str) -> UqffFile {
    UqffFile::write_hqz4(&test_tensor(), Some(test_bias()), prefix).expect("layer is written")
}

fn replace_word(file: &mut UqffFile, suffix: &str, value: u32) {
    let name = format!("{PREFIX}.{suffix}");
    let index = file.entries.iter().position(|e| e.name == name).unwrap();
    file.data[index] = UqffData::Words(vec![value]);
}

fn layer_entries(file: &UqffFile) -> Vec<UqffEntry> {
    file.entries
        .iter()
        .map(|entry| UqffEntry {
            name: entry.name[PREFIX.len() + 1..].to_string(),
            dtype: entry.dtype,
            dims: entry.dims.clone(),
        })
        .collect()
}

fn stored_bias(file: &UqffFile) -> Vec<f32> {
    let name = format!("{PREFIX}.bias");
    let index = file.entries.iter().position(|e| e.name == name).unwrap();
    match &file.data[index] {
        UqffData::Words(words) => words.iter().map(|word| f32::from_bits(*word)).collect(),
        UqffData::Bytes(_) => panic!("a bias has floats"),
    }
}

fn same(left: &Hqz4Tensor, right: &Hqz4Tensor) -> bool {
    left.rows() == right.rows()
        && left.cols() == right.cols()
        && left.group_size() == right.group_size()
        && left.group_offset() == right.group_offset()
        && left.seed() == right.seed()
        && left.scales() == right.scales()
        && left.codes() == right.codes()
}

fn assert_close(actual: &[f32], expected: &[f32], relative: f32) {
    assert_eq!(actual.len(), expected.len());
    for (actual, expected) in actual.iter().zip(expected) {
        let tolerance = relative * expected.abs().max(1.0);
        assert!((actual - expected).abs() <= tolerance);
    }
}

#[test]
fn rht_round_trip_restores_values() {
    let mut values = (0..TEST_GROUP_SIZE)
        .map(|index| (index as f32 * 0.17).sin())
        .collect::<Vec<_>>();
    let expected = values.clone();
    rotate_weight_group(&mut values, TEST_SEED, 3);
    inverse_rotate_weight_group(&mut values, TEST_SEED, 3);

    for (actual, expected) in values.iter().zip(expected) {
        assert!((actual - expected).abs() < 1e-5);
    }
}

#[test]
fn encoding_is_deterministic() -> Result<(), Hqz4Error> {
    let weights = test_weights();
    let first = encode(&weights, TEST_ROWS, TEST_COLS, test_config())?;
    let second = encode(&weights, TEST_ROWS, TEST_COLS, test_config())?;
    let different_seed = encode(
        &weights,
        TEST_ROWS,
        TEST_COLS,
        Hqz4Config {
            group_size: TEST_GROUP_SIZE,
            seed: TEST_SEED + 1,
        },
    )?;

    assert!(same(&first, &second));
    assert_ne!(first.codes(), different_seed.codes());
    assert_eq!(first.codes().len(), weights.len() / 2);
    assert_eq!(
        first.scales().len(),
        TEST_ROWS * TEST_COLS / TEST_GROUP_SIZE
    );
    Ok(())
}

#[test]
fn signed_nibbles_are_low_first() -> Result<(), Hqz4Error> {
    let encoded = Hqz4Tensor::from_parts(
        1,
        2,
        Hqz4Config {
            group_size: 2,
            seed: 0,
        },
        vec![1.0f32.to_bits()],
        vec![0x79],
    )?;

    assert_eq!(decode_rotated_row(&encoded, 0)?, vec![-7.0, 7.0]);
    Ok(())
}

#[test]
fn row_decode_matches_full_decode() -> Result<(), Hqz4Error> {
    let encoded = test_tensor();
    let decoded = decode(&encoded)?;

    for row in 0..TEST_ROWS {
        assert_eq!(
            decode_row(&encoded, row)?,
            decoded[row * TEST_COLS..(row + 1) * TEST_COLS]
        );
    }
    Ok(())
}

#[test]
fn codec_preserves_weight_geometry() -> Result<(), Hqz4Error> {
    let weights = test_weights();
    let decoded = decode(&encode(&weights, TEST_ROWS, TEST_COLS, test_config())?)?;
    let product = dot(&weights, &decoded);
    let source_l2 = dot(&weights, &weights);
    let decoded_l2 = dot(&decoded, &decoded);
    let error_l2 = weights
        .iter()
        .zip(&decoded)
        .map(|(left, right)| {
            let error = left - right;
            error * error
        })
        .sum::<f32>();
    let cosine = product / (source_l2 * decoded_l2).sqrt();
    let relative_l2 = (error_l2 / source_l2).sqrt();

    assert!(cosine > TEST_MIN_COSINE, "cosine={cosine}");
    assert!(
        relative_l2 < TEST_MAX_RELATIVE_L2,
        "relative_l2={relative_l2}"
    );
    Ok(())
}

#[test]
fn rotated_matvec_matches_decoded_dense_matvec() -> Result<(), Hqz4Error> {
    let encoded = test_tensor();
    let activation = (0..TEST_COLS)
        .map(|index| (index as f32 * 0.023).cos() * 0.5)
        .collect::<Vec<_>>();
    let actual = matvec(&encoded, &activation)?;
    let expected: Vec<f32> = decode(&encoded)?
        .chunks_exact(TEST_COLS)
        .map(|row| dot(row, &activation))
        .collect();

    assert_close(&actual, &expected, 1e-4);
    Ok(())
}

#[test]
fn dynamic_a8_reference_tracks_float_activation_path() -> Result<(), Hqz4Error> {
    let encoded = test_tensor();
    let activation = (0..TEST_COLS)
        .map(|index| (index as f32 * 0.023).cos() * 0.5)
        .collect::<Vec<_>>();
    let actual = a8_matvec_reference(&encoded, &activation)?;
    let expected = matvec(&encoded, &activation)?;

    assert_close(&actual, &expected, 0.02);
    Ok(())
}

#[test]
fn input_shard_matvec_uses_global_group_indices() -> Result<(), Hqz4Error> {
    let encoded = test_tensor();
    let shard = encoded.shard(1, TEST_GROUP_SIZE, TEST_GROUP_SIZE * 2)?;
    assert_eq!(shard.group_offset(), 1);
    let activation = (0..TEST_GROUP_SIZE * 2)
        .map(|index| (index as f32 * 0.041).sin())
        .collect::<Vec<_>>();
    let actual = matvec(&shard, &activation)?;
    let expected: Vec<f32> = decode(&shard)?
        .chunks_exact(TEST_GROUP_SIZE * 2)
        .map(|row| dot(row, &activation))
        .collect();

    assert_close(&actual, &expected, 1e-4);
    Ok(())
}

#[test]
fn from_parts_rejects_reserved_code() {
    let error = Hqz4Tensor::from_parts(
        1,
        2,
        Hqz4Config {
            group_size: 2,
            seed: 0,
        },
        vec![1.0f32.to_bits()],
        vec![0x08],
    )
    .unwrap_err();
    assert!(error.message().contains("reserved -8"));
}

#[test]
fn encode_rejects_invalid_inputs() {
    let invalid_group = encode(
        &[0.0; 12],
        2,
        6,
        Hqz4Config {
            group_size: 3,
            seed: 0,
        },
    )
    .unwrap_err();
    assert!(invalid_group.message().contains("power of two"));

    let non_finite = encode(
        &[0.0, f32::NAN],
        1,
        2,
        Hqz4Config {
            group_size: 2,
            seed: 0,
        },
    )
    .unwrap_err();
    assert!(non_finite.message().contains("finite"));
}

#[test]
fn f32_scales_cover_bf16_weight_range() -> Result<(), Hqz4Error> {
    let mut weights = vec![0.0; HQZ4_DEFAULT_GROUP_SIZE];
    weights[0] = 10_000_000.0;
    let encoded = encode(&weights, 1, HQZ4_DEFAULT_GROUP_SIZE, Hqz4Config::default())?;

    let scale = f32::from_bits(encoded.scales()[0]);
    assert!(scale > f16::MAX.to_f32());
    assert!(scale.is_finite());
    Ok(())
}

#[test]
fn a_written_layer_reads_back() {
    let file = test_file(PREFIX);
    assert_eq!(file.stored_label(PREFIX).unwrap(), "hqz4");
    assert!(inspect_uqff_header(&layer_entries(&file)));
    let mut missing = layer_entries(&file);
    missing.remove(0);
    assert!(!inspect_uqff_header(&missing));
    let loaded = from_uqff(&file, PREFIX, None, DeviceLocation::Cpu, false).unwrap();
    assert!(same(&loaded, &test_tensor()));
    assert_eq!((loaded.rows(), loaded.cols()), (TEST_ROWS, TEST_COLS));
    assert_eq!(bias_range(None, TEST_ROWS), Some((0, TEST_ROWS)));
}

#[test]
fn half_scales_are_readable() -> Result<(), Hqz4Error> {
    let mut file = test_file(PREFIX);
    replace_word(&mut file, "weight.schema", 1);
    let name = format!("{PREFIX}.weight.scales");
    let index = file.entries.iter().position(|e| e.name == name).unwrap();
    file.entries[index].dtype = DType::F16;
    let halves: Vec<u32> = test_tensor()
        .scales()
        .iter()
        .map(|scale| f16::from_f32(f32::from_bits(*scale)).to_f32().to_bits())
        .collect();
    file.data[index] = UqffData::Words(halves);

    let loaded = file.read_hqz4(PREFIX).expect("HQZ4 schema 1 layer must load");
    assert_close(&decode(&loaded)?, &decode(&test_tensor())?, 1e-3);
    Ok(())
}

#[test]
fn uqff_input_shard_preserves_global_rht_group_offset() -> Result<(), Hqz4Error> {
    let file = test_file(PREFIX);
    let shard = ShardRange {
        dim: 1,
        start: TEST_GROUP_SIZE,
        len: TEST_GROUP_SIZE * 2,
    };
    let loaded = from_uqff(&file, PREFIX, Some(shard), DeviceLocation::Cpu, false).unwrap();
    assert_eq!(bias_range(Some(shard), TEST_ROWS), None);

    let expected: Vec<f32> = decode(&test_tensor())?
        .chunks_exact(TEST_COLS)
        .flat_map(|row| row[TEST_GROUP_SIZE..TEST_GROUP_SIZE * 3].to_vec())
        .collect();
    assert_close(&decode(&loaded)?, &expected, 1e-5);
    let activation = (0..TEST_GROUP_SIZE * 2)
        .map(|index| (index as f32 * 0.031).cos())
        .collect::<Vec<_>>();
    let product: Vec<f32> = expected
        .chunks_exact(TEST_GROUP_SIZE * 2)
        .map(|row| dot(row, &activation))
        .collect();
    assert_close(&matvec(&loaded, &activation)?, &product, 1e-5);

    let askew = ShardRange {
        dim: 1,
        start: TEST_GROUP_SIZE / 2,
        len: TEST_GROUP_SIZE * 2,
    };
    match from_uqff(&file, PREFIX, Some(askew), DeviceLocation::Cpu, false) {
        Err(LoadError::Shard { error }) => {
            assert!(error.message().contains("align to group size"))
        }
        _ => panic!("the shard is refused"),
    }
    Ok(())
}

#[test]
fn uqff_output_shard_preserves_matching_bias() -> Result<(), Hqz4Error> {
    let file = test_file(PREFIX);
    let shard = ShardRange {
        dim: 0,
        start: 1,
        len: 3,
    };
    let loaded = from_uqff(&file, PREFIX, Some(shard), DeviceLocation::Cpu, false).unwrap();
    let (start, len) = bias_range(Some(shard), TEST_ROWS).expect("output shard has a bias");

    let activation = (0..TEST_COLS)
        .map(|index| (index as f32 * 0.029).sin())
        .collect::<Vec<_>>();
    let bias = stored_bias(&file);
    let add = |values: Vec<f32>, bias: &[f32]| -> Vec<f32> {
        values.iter().zip(bias).map(|(v, b)| v + b).collect()
    };
    let expected = add(matvec(&test_tensor(), &activation)?, &bias);
    let actual = add(matvec(&loaded, &activation)?, &bias[start..start + len]);
    assert_close(&actual, &expected[1..4], 1e-5);
    Ok(())
}

#[test]
fn uqff_reader_rejects_unknown_hqz4_schema() {
    let mut file = test_file(PREFIX);
    replace_word(&mut file, "weight.schema", 2);
    assert!(matches!(
        file.read_hqz4(PREFIX),
        Err(UqffError::Schema { schema: 2 })
    ));
}

#[test]
fn broken_layers_are_refused() {
    let with = |suffix: &str, data: UqffData| {
        let mut file = test_file(PREFIX);
        let name = format!("{PREFIX}.{suffix}");
        let index = file.entries.iter().position(|e| e.name == name).unwrap();
        file.data[index] = data;
        file.read_hqz4(PREFIX).err().expect("the layer is refused")
    };
    assert!(matches!(
        with("weight.layout", UqffData::Bytes(vec![3])),
        UqffError::Layout { layout: 3 }
    ));
    assert!(matches!(
        with("weight.transform", UqffData::Bytes(vec![1])),
        UqffError::Transform { transform: 1 }
    ));
    assert!(matches!(
        with("weight.bits", UqffData::Bytes(vec![8])),
        UqffError::Bits { bits: 8 }
    ));
    assert!(matches!(
        with("weight.group_size", UqffData::Words(vec![])),
        UqffError::Field {
            field: Hqz4Field::GroupSize
        }
    ));
    assert!(matches!(
        test_file(PREFIX).read_hqz4("model.other"),
        Err(UqffError::Field { .. })
    ));
    let shard = test_tensor().shard(1, TEST_GROUP_SIZE, TEST_GROUP_SIZE).unwrap();
    assert!(matches!(
        UqffFile::write_hqz4(&shard, None, PREFIX),
        Err(UqffError::InputShard)
    ));
}

#[test]
fn scalars_have_one_element() {
    let file = test_file(PREFIX);
    assert_eq!(file.load_u8_scalar(PREFIX, Hqz4Field::Format).ok(), Some(7));
    assert_eq!(file.load_u8_scalar(PREFIX, Hqz4Field::Bits).ok(), Some(4));
    assert_eq!(
        file.load_u32_scalar(PREFIX, Hqz4Field::SeedLo).ok(),
        Some(TEST_SEED as u32)
    );
    assert_eq!(file.load_u32_scalar(PREFIX, Hqz4Field::SeedHi).ok(), Some(0));
    assert_eq!(
        file.load_u32_vec(PREFIX, Hqz4Field::Shape).unwrap(),
        vec![TEST_ROWS as u32, TEST_COLS as u32]
    );
    assert!(file.load_u8_scalar(PREFIX, Hqz4Field::Schema).is_err());
    assert!(!inspect_uqff_header(&vec![UqffEntry {
        name: "weight".to_string(),
        dtype: DType::U8,
        dims: vec![2],
    }]));
}

#[test]
fn codes_are_written_one_by_one() {
    let mut codes = vec![0u8; 2];
    for (index, value) in [-7i8, 7, 0, -1].into_iter().enumerate() {
        write_code(&mut codes, index, value);
    }
    assert_eq!(codes, vec![0x79, 0xf0]);
    assert_eq!(read_code(&codes, 0), -7);
    assert_eq!(read_code(&codes, 3), -1);
    assert_eq!(splitmix64(0), 0xe220_a839_7b1d_cdaf);
}

#[test]
fn parts_must_fit_their_shape() {
    let cfg = Hqz4Config {
        group_size: 2,
        seed: 0,
    };
    let one = 1.0f32.to_bits();
    let parts = |rows, cols, scales: Vec<u32>, codes: Vec<u8>| {
        Hqz4Tensor::from_parts(rows, cols, cfg, scales, codes).unwrap_err()
    };
    assert!(matches!(parts(0, 2, vec![], vec![]), Hqz4Error::EmptyMatrix));
    assert!(matches!(
        parts(1, 3, vec![], vec![]),
        Hqz4Error::Width {
            cols: 3,
            group_size: 2
        }
    ));
    assert!(matches!(
        parts(1, 2, vec![], vec![0]),
        Hqz4Error::ScaleCount {
            got: 0,
            expected: 1
        }
    ));
    assert!(matches!(
        parts(1, 2, vec![(-1.0f32).to_bits()], vec![0]),
        Hqz4Error::ScaleValue
    ));
    assert!(matches!(
        parts(1, 2, vec![one], vec![0, 0]),
        Hqz4Error::CodeLength {
            got: 2,
            expected: 1
        }
    ));
    assert!(matches!(
        parts(1, 2, vec![0], vec![1]),
        Hqz4Error::ZeroScaleCodes
    ));
    assert!(matches!(
        Hqz4Tensor::from_parts_at_group_offset((1, 2), cfg, usize::MAX, vec![one], vec![1]),
        Err(Hqz4Error::GroupOffsetOverflow)
    ));
    assert!(matches!(
        check_weights(&[0], 1, 2, cfg),
        Err(Hqz4Error::WeightLength { got: 1, .. })
    ));
    assert!(matches!(
        group_scale(one, f32::INFINITY.to_bits(), 3, 4),
        Err(Hqz4Error::GroupScale { row: 3, group: 4 })
    ));
    assert_eq!(group_scale(0, 9, 0, 0).ok(), Some(0));
    let tensor = Hqz4Tensor::from_parts(1, 2, cfg, vec![one], vec![1]).unwrap();
    assert!(matches!(
        tensor.rotated_row(1),
        Err(Hqz4Error::Row { row: 1, rows: 1 })
    ));
    assert!(matches!(
        tensor.check_activation(&[one]),
        Err(Hqz4Error::ActivationLength { got: 1, cols: 2 })
    ));
    assert!(matches!(
        tensor.check_activation(&[one, f32::NAN.to_bits()]),
        Err(Hqz4Error::NonFiniteActivation)
    ));
}

#[test]
fn shards_of_shards_are_shards() {
    let full = test_tensor();
    let step = full.shard(1, 32, 96).unwrap().shard(1, 32, 32).unwrap();
    assert!(same(&step, &full.shard(1, 64, 32).unwrap()));
    let rows = full.shard(0, 1, 4).unwrap().shard(0, 1, 2).unwrap();
    assert!(same(&rows, &full.shard(0, 2, 2).unwrap()));
    assert!(same(&full.shard(0, 0, TEST_ROWS).unwrap(), &full));
    assert!(matches!(
        full.shard(2, 0, 1),
        Err(Hqz4Error::ShardDim { dim: 2 })
    ));
    assert!(matches!(
        full.shard(0, usize::MAX, 1),
        Err(Hqz4Error::ShardOverflow)
    ));
    assert!(matches!(
        full.shard(0, 4, 2),
        Err(Hqz4Error::ShardRange { .. })
    ));
    assert!(matches!(
        full.shard(1, 16, 32),
        Err(Hqz4Error::ShardAlignment { .. })
    ));
}

fn kernel_tensor(dtype: DType, dims: &[usize]) -> KernelTensor {
    KernelTensor {
        dtype,
        dims: dims.to_vec(),
        contiguous: true,
        device: DeviceTag { cuda: true, id: 0 },
    }
}

fn matrix() -> MatrixShape {
    MatrixShape {
        rows: 5,
        cols: 128,
        group_size: 32,
        group_offset: 2,
        seed: 9,
    }
}

fn matmul_inputs(dims: &[usize]) -> MatmulInputs {
    MatmulInputs {
        input: kernel_tensor(DType::F16, dims),
        weight: kernel_tensor(DType::U8, &[5, 64]),
        scales: kernel_tensor(DType::F32, &[5, 4]),
    }
}

#[test]
fn matmul_launches_with_exact_sizes() {
    let plan = matmul_inputs(&[2, 3, 128]).plan_matmul(matrix(), true).unwrap();
    assert_eq!((plan.m, plan.n, plan.k), (6, 5, 128));
    assert_eq!(plan.quantized_elements, 6 * 128);
    assert_eq!(plan.activation_scale_elements, 6 * 4);
    assert_eq!(plan.output_elements, 30);
    assert_eq!(plan.output_dims, vec![2, 3, 5]);
    assert_eq!((plan.group_size, plan.group_offset, plan.seed), (32, 2, 9));
    assert_eq!(
        matmul_inputs(&[6, 128]).plan_matmul(matrix(), false).err(),
        Some(KernelError::NotCompiled)
    );
    let mut cpu = matmul_inputs(&[6, 128]);
    cpu.weight.device = DeviceTag { cuda: false, id: 0 };
    assert!(cpu.plan_matmul(matrix(), true).is_err());
    assert!(matmul_inputs(&[6, 64]).plan_matmul(matrix(), true).is_err());
    let mut strided = matmul_inputs(&[6, 128]);
    strided.input.contiguous = false;
    assert!(strided.plan_matmul(matrix(), true).is_err());
    let mut empty = matrix();
    empty.cols = 0;
    assert_eq!(
        strided.plan_matmul(empty, true).err(),
        Some(KernelError::NotContiguous)
    );
    assert_eq!(
        matmul_inputs(&[6, 128]).plan_matmul(empty, true).err(),
        Some(KernelError::InputWidth {
            width: 128,
            cols: 0
        })
    );
    assert_eq!(
        matmul_inputs(&[usize::MAX, 2, 64]).plan_matmul(matrix(), true).err(),
        Some(KernelError::InputWidth {
            width: 64,
            cols: 128
        })
    );
}

#[test]
fn embeddings_launch_with_exact_sizes() {
    let inputs = MatmulInputs {
        input: kernel_tensor(DType::U32, &[2, 2]),
        weight: kernel_tensor(DType::U8, &[5, 64]),
        scales: kernel_tensor(DType::F32, &[5, 4]),
    };
    match inputs.plan_embedding(matrix(), DType::F32, true) {
        Ok(EmbeddingStep::Launch(plan)) => {
            assert_eq!((plan.id_count, plan.rows, plan.cols), (4, 5, 128));
            assert_eq!(plan.output_elements, 4 * 128);
        }
        _ => panic!("a launch is planned"),
    }
    let none = MatmulInputs {
        input: kernel_tensor(DType::U32, &[0]),
        weight: kernel_tensor(DType::U8, &[5, 64]),
        scales: kernel_tensor(DType::F32, &[5, 4]),
    };
    assert!(matches!(
        none.plan_embedding(matrix(), DType::F32, true),
        Ok(EmbeddingStep::Empty)
    ));
}

fn quantized() -> QuantizedInputs {
    QuantizedInputs {
        activation: kernel_tensor(DType::U8, &[6, 128]),
        activation_scales: kernel_tensor(DType::F32, &[6, 4]),
        source_shape: vec![2, 3, 128],
        source_dtype: DType::BF16,
    }
}

fn cuda_matrix(rows: usize) -> CudaMatrix {
    CudaMatrix {
        codes: kernel_tensor(DType::U8, &[rows, 64]),
        scales: kernel_tensor(DType::F32, &[rows, 4]),
        rows,
        cols: 128,
        group_size: 32,
    }
}

#[test]
fn quantized_activations_feed_several_projections() {
    let plan = plan_quantize(&kernel_tensor(DType::F16, &[2, 3, 128]), matrix(), true).unwrap();
    assert_eq!((plan.rows, plan.width, plan.groups), (6, 128, 4));
    assert_eq!((plan.elements, plan.scale_count), (768, 24));
    let mut empty = matrix();
    empty.group_size = 0;
    assert_eq!(
        plan_quantize(&kernel_tensor(DType::F16, &[2, 3, 128]), empty, true).err(),
        Some(KernelError::InputWidth {
            width: 128,
            cols: 128
        })
    );
    empty.cols = 0;
    assert_eq!(
        plan_quantize(&kernel_tensor(DType::F16, &[2, 3, 0]), empty, true).err(),
        Some(KernelError::InputRows)
    );
    assert_eq!(
        quantized()
            .plan_matmul(
                &kernel_tensor(DType::F32, &[5, 64]),
                &kernel_tensor(DType::F32, &[5, 4]),
                empty,
                true,
            )
            .err(),
        Some(KernelError::Dtypes)
    );

    let single = quantized()
        .plan_matmul(
            &kernel_tensor(DType::U8, &[5, 64]),
            &kernel_tensor(DType::F32, &[5, 4]),
            matrix(),
            true,
        )
        .unwrap();
    assert_eq!((single.m, single.n, single.k), (6, 5, 128));
    assert_eq!(single.output_dims, vec![2, 3, 5]);
    assert!(single.convert);

    let qkv = vec![cuda_matrix(8), cuda_matrix(4), cuda_matrix(4)];
    let plan = quantized()
        .try_fused_qkv_quantized(&qkv, true)
        .unwrap()
        .unwrap();
    assert_eq!(plan.q_dims, vec![2, 3, 8]);
    assert_eq!((plan.q_elements, plan.k_elements), (48, 24));
    assert_eq!(quantized().plan_qkv(&qkv, true).unwrap().v_rows, 4);

    let gate_up = vec![cuda_matrix(8), cuda_matrix(8)];
    assert_eq!(
        quantized().plan_gate_up(&gate_up, true).err(),
        Some(KernelError::Dtype { dtype: DType::BF16 })
    );
    let mut halves = quantized();
    halves.source_dtype = DType::F16;
    let plan = halves
        .try_fused_silu_gate_up_quantized(&gate_up, true)
        .unwrap()
        .unwrap();
    assert_eq!((plan.m, plan.n, plan.output_elements), (6, 8, 48));
    assert!(quantized()
        .try_fused_silu_gate_up_quantized(&vec![cuda_matrix(8), cuda_matrix(4)], true)
        .unwrap()
        .is_none());
    assert_eq!(
        quantized()
            .plan_gate_up(&vec![cuda_matrix(8), cuda_matrix(4)], true)
            .err(),
        Some(KernelError::GateUpRows)
    );
    assert_eq!(
        quantized()
            .validate_multi_projection_inputs(&vec![], true)
            .err(),
        Some(KernelError::NoWeights)
    );
}

#[test]
fn layers_run_where_they_can() {
    let tensor = test_tensor();
    let gpu = DeviceLocation::Cuda { gpu_id: 0 };
    assert!(ensure_supported_device(DeviceLocation::Cpu, false).is_ok());
    assert!(ensure_supported_device(gpu, false).is_err());
    assert!(check_delta(DeviceLocation::Cpu, true, false).is_ok());
    assert_eq!(check_delta(gpu, true, false), Err(LinearError::Device));
    assert_eq!(
        check_delta(DeviceLocation::Cpu, false, false),
        Err(LinearError::DeviceMismatch)
    );
    assert!(check_layer(&tensor, Some(&vec![TEST_ROWS]), DeviceLocation::Cpu, false).is_ok());
    assert_eq!(
        check_layer(&tensor, Some(&vec![4]), DeviceLocation::Cpu, false),
        Err(LinearError::BiasShape { rows: TEST_ROWS })
    );
    assert_eq!(activation_quantization_scheme(&tensor, DeviceLocation::Cpu, true), None);
    let scheme = activation_quantization_scheme(&tensor, gpu, true).unwrap();
    assert_eq!((scheme.seed, scheme.block_cols), (TEST_SEED, TEST_GROUP_SIZE));
    assert!(plan_quantize_activation(Some(scheme), true, DType::F16).is_ok());
    assert_eq!(
        plan_quantize_activation(None, true, DType::F16),
        Err(LinearError::Unavailable)
    );
    assert!(check_quantized_activation(Some(scheme), scheme, true).is_ok());
    let mut other = scheme;
    other.group_offset += 1;
    assert_eq!(
        check_quantized_activation(Some(scheme), other, true),
        Err(LinearError::Scheme)
    );
    assert_eq!(
        plan_forward(DeviceLocation::Cpu, true, false),
        Ok(ForwardRoute::Decoded)
    );
    assert_eq!(plan_forward(gpu, true, true), Ok(ForwardRoute::Kernels));
    assert_eq!(
        plan_forward(gpu, false, true),
        Err(LinearError::DeviceMismatch)
    );
}

#[test]
fn layers_keep_their_type() {
    assert_eq!(kernel_activation_dtype(DType::F16), Ok(DType::F16));
    assert_eq!(kernel_activation_dtype(DType::BF16), Ok(DType::F16));
    assert_eq!(
        kernel_activation_dtype(DType::U8),
        Err(LinearError::ActivationDtype { dtype: DType::U8 })
    );
    assert_eq!(embedding_kernel_dtype(DType::BF16), DType::F32);
    assert_eq!(embedding_shape(&vec![2, 2], 128), vec![2, 2, 128]);
    assert!(check_serialized_type(IsqType::HQZ4).is_ok());
    assert_eq!(
        check_serialized_type(IsqType::Q4K),
        Err(LinearError::SerializedType { isq: IsqType::Q4K })
    );
    let cpu = DeviceLocation::Cpu;
    assert_eq!(plan_isq(None, false, cpu, true, false), Ok(IsqStep::Keep));
    assert_eq!(
        plan_isq(Some(IsqType::HQZ4), true, cpu, true, false),
        Err(LinearError::Imatrix)
    );
}
