use quantcore::dtype::DType;
use quantcore::paging::{indices_to_vec, plan_gather, plan_slots, IndexData};
use quantcore::tensor::{Place, TensorDesc};
use quantcore::turboquant::bits::{push_bits, BitReader};
use quantcore::turboquant::layout::{
    head_dim_from_row_bytes, row_bytes, row_offset, smallest_head_dim_from_row_bytes,
    TurboLayoutError,
};
use quantcore::turboquant::rows::{
    assemble_row, check_turbo_gather, check_turbo_reshape, check_turbo_slots,
    deterministic_sign_is_negative,
    is_turboquant_cache, read_row, usable, RowCache, TurboError,
};

const CLIP: f32 = 4.0;

fn sign(index: usize) -> f32 {
    if deterministic_sign_is_negative(index) {
        -1.0
    } else {
        1.0
    }
}

fn fwht(values: &mut [f32]) {
    let mut h = 1;
    while h < values.len() {
        for i in (0..values.len()).step_by(h * 2) {
            for j in i..i + h {
                let (x, y) = (values[j], values[j + h]);
                values[j] = x + y;
                values[j + h] = x - y;
            }
        }
        h *= 2;
    }
}

fn length(values: &[f32]) -> f32 {
    values.iter().map(|x| x * x).sum::<f32>().sqrt()
}

fn dequantize(code: u32) -> f32 {
    -CLIP + (code as f32 / 7.0) * (2.0 * CLIP)
}

fn coarse(codes: &[u32], norm: f32) -> Vec<f32> {
    let mut values: Vec<f32> = codes.iter().map(|code| dequantize(*code)).collect();
    fwht(&mut values);
    let dim = values.len() as f32;
    values
        .iter()
        .enumerate()
        .map(|(i, v)| sign(i) * v / dim * norm)
        .collect()
}

fn pack_vector(vector: &[f32]) -> Result<Vec<u8>, TurboError> {
    let dim = vector.len();
    let norm = length(vector);
    if !usable(norm.to_bits()) {
        return assemble_row(dim, norm.to_bits(), &vec![], 0, &vec![]);
    }
    let mut rotated: Vec<f32> = vector
        .iter()
        .enumerate()
        .map(|(i, v)| sign(i) * v / norm)
        .collect();
    fwht(&mut rotated);
    let codes: Vec<u32> = rotated
        .iter()
        .map(|v| ((v.clamp(-CLIP, CLIP) + CLIP) / (2.0 * CLIP) * 7.0).round() as u32)
        .collect();
    let residual: Vec<f32> = vector
        .iter()
        .zip(coarse(&codes, norm))
        .map(|(exact, approx)| exact - approx)
        .collect();
    let mut projected: Vec<f32> = residual
        .iter()
        .enumerate()
        .map(|(i, v)| sign(i) * v)
        .collect();
    fwht(&mut projected);
    let signs: Vec<bool> = projected
        .iter()
        .enumerate()
        .map(|(i, v)| sign(i) * v >= 0.0)
        .collect();
    assemble_row(
        dim,
        norm.to_bits(),
        &codes,
        length(&residual).to_bits(),
        &signs,
    )
}

fn unpack_vector(row: &Vec<u8>, dim: usize) -> Result<Vec<f32>, TurboError> {
    let Some(parts) = read_row(row, dim)? else {
        return Ok(vec![0.0; dim]);
    };
    let mut values = coarse(&parts.codes, f32::from_bits(parts.norm));
    if let Some(signs) = parts.signs {
        let mut projected: Vec<f32> = signs
            .iter()
            .enumerate()
            .map(|(i, positive)| if *positive { sign(i) } else { -sign(i) })
            .collect();
        fwht(&mut projected);
        let scale = std::f32::consts::FRAC_PI_2.sqrt() / dim as f32;
        for i in 0..dim {
            values[i] += f32::from_bits(parts.residual_norm) * scale * sign(i) * projected[i];
        }
    }
    Ok(values)
}

fn desc(dtype: DType, dims: &[usize]) -> TensorDesc {
    TensorDesc {
        dtype,
        dims: dims.to_vec(),
        place: Place::Cpu,
    }
}

fn empty_cache() -> RowCache {
    let row_bytes = row_bytes(8).unwrap();
    RowCache {
        num_blocks: 2,
        num_heads: 2,
        block_size: 4,
        row_bytes,
        data: vec![0; 2 * 2 * 4 * row_bytes],
    }
}

fn gather(cache: &RowCache, blocks: Vec<u32>, lens: Vec<u32>) -> Vec<Vec<Vec<f32>>> {
    let table = indices_to_vec(&IndexData::U32(blocks), false).unwrap();
    let lens = indices_to_vec(&IndexData::U32(lens), false).unwrap();
    let reads = plan_gather(&vec![table], &lens, cache.num_blocks, cache.block_size).unwrap();
    reads
        .iter()
        .map(|read| {
            (0..cache.num_heads)
                .map(|head| {
                    let row = cache.read(read.block, head, read.offset);
                    unpack_vector(&row, 8).unwrap()
                })
                .collect()
        })
        .collect()
}

#[test]
fn pack_roundtrip_has_expected_shape_and_reasonable_error() -> Result<(), TurboError> {
    let vector = (0..64)
        .map(|i| ((i as f32) * 0.17).sin())
        .collect::<Vec<_>>();
    let packed = pack_vector(&vector)?;
    assert_eq!(packed.len(), row_bytes(64).unwrap());
    let unpacked = unpack_vector(&packed, 64)?;
    let mse = vector
        .iter()
        .zip(unpacked.iter())
        .map(|(a, b)| (a - b).powi(2))
        .sum::<f32>()
        / vector.len() as f32;
    assert!(mse < 0.08, "mse={mse}");
    Ok(())
}

#[test]
fn writes_and_gathers_cache_rows() -> Result<(), TurboError> {
    let mut k_cache = empty_cache();
    let k: Vec<Vec<Vec<f32>>> = (0..3)
        .map(|t| {
            (0..2)
                .map(|h| {
                    (0..8)
                        .map(|d| ((t * 16 + h * 8 + d) as f32 * 0.37).sin())
                        .collect()
                })
                .collect()
        })
        .collect();
    let shape = check_turbo_reshape(
        &desc(DType::F32, &[3, 2, 8]),
        &desc(DType::F32, &[3, 2, 8]),
        &desc(DType::U8, &[2, 2, 4, row_bytes(8).unwrap()]),
        &desc(DType::U8, &[2, 2, 4, row_bytes(8).unwrap()]),
    )?;
    assert_eq!((shape.num_tokens, shape.num_heads), (3, 2));

    let plan = plan_slots(&vec![0, 1, 5], shape.num_blocks, shape.block_size);
    for write in &plan.writes {
        for head in 0..2 {
            let row = pack_vector(&k[write.token][head])?;
            k_cache.write_row(write.block, head, write.offset, &row);
        }
    }
    assert!(plan.fault.is_none());

    let kg = gather(&k_cache, vec![0, 1], vec![0, 6]);
    assert_eq!((kg.len(), kg[0].len(), kg[0][0].len()), (6, 2, 8));
    assert_eq!(kg[1][1], unpack_vector(&pack_vector(&k[1][1])?, 8)?);
    assert_eq!(kg[5][0], unpack_vector(&pack_vector(&k[2][0])?, 8)?);
    assert_eq!(kg[2][0], vec![0.0; 8]);
    Ok(())
}

#[test]
fn gathers_empty_cache_without_dtype_conversion_kernel() -> Result<(), TurboError> {
    let dims = [2, 2, 4, row_bytes(8).unwrap()];
    let shape = check_turbo_gather(&desc(DType::U8, &dims), &desc(DType::U8, &dims))?;
    assert_eq!((shape.num_heads, shape.k_head_dim, shape.v_head_dim), (2, 8, 8));
    let kg = gather(&empty_cache(), vec![0], vec![0, 0]);
    assert_eq!(kg.len(), 0);
    Ok(())
}

#[test]
fn rows_have_exact_sizes() {
    assert_eq!(row_bytes(64), Ok(40));
    assert_eq!(row_bytes(8), Ok(12));
    assert_eq!(row_bytes(4), Ok(11));
    assert_eq!(
        row_bytes(12),
        Err(TurboLayoutError::HeadDimNotPowerOfTwo { head_dim: 12 })
    );
    assert_eq!(head_dim_from_row_bytes(40), Ok(64));
    assert_eq!(
        head_dim_from_row_bytes(2),
        Err(TurboLayoutError::RowTooShort { row_bytes: 2 })
    );
    assert_eq!(
        head_dim_from_row_bytes(11),
        Err(TurboLayoutError::HeadDimNotPowerOfTwo { head_dim: 6 })
    );
    assert_eq!(
        head_dim_from_row_bytes(9),
        Err(TurboLayoutError::RowBytes { row_bytes: 9 })
    );
    assert_eq!(smallest_head_dim_from_row_bytes(40), Ok(64));
    assert_eq!(smallest_head_dim_from_row_bytes(10), Ok(1));
    assert_eq!(
        smallest_head_dim_from_row_bytes(7),
        Err(TurboLayoutError::RowTooShort { row_bytes: 7 })
    );
    assert_eq!(
        smallest_head_dim_from_row_bytes(13),
        Err(TurboLayoutError::RowBytes { row_bytes: 13 })
    );
    assert_eq!(row_offset(1, 1, 3, 2, 4, 12), 180);
}

#[test]
fn bit_fields_read_back() {
    let mut bytes = vec![0u8; 2];
    let mut offset = 0;
    for value in [5, 2, 7, 1] {
        push_bits(&mut bytes, &mut offset, value, 3);
    }
    assert_eq!(offset, 12);
    assert_eq!(bytes, vec![0b1101_0101, 0b0000_0011]);
    let mut reader = BitReader::new(&bytes, 3);
    assert_eq!(reader.next(), Some(5));
    assert_eq!(reader.next(), Some(2));
    assert_eq!(reader.next(), Some(7));
    assert_eq!(reader.next(), Some(1));
    assert_eq!(reader.next(), Some(0));
    assert_eq!(reader.next(), None);
}

#[test]
fn rows_hold_norms_codes_and_signs() {
    let norm = 2.0f32.to_bits();
    let codes = vec![0, 1, 2, 3, 4, 5, 6, 7];
    let signs = vec![true, false, false, true, true, true, false, false];
    let row = assemble_row(8, norm, &codes, 0.5f32.to_bits(), &signs).unwrap();
    assert_eq!(row[..4], 2.0f32.to_le_bytes());
    assert_eq!(row[4..8], 0.5f32.to_le_bytes());
    assert_eq!(row[11], 0b0011_1001);
    let parts = read_row(&row, 8).unwrap().unwrap();
    assert_eq!(parts.codes, codes);
    assert_eq!(parts.signs, Some(signs));
    assert_eq!((parts.norm, parts.residual_norm), (norm, 0.5f32.to_bits()));

    let exact = assemble_row(8, norm, &codes, 0, &vec![]).unwrap();
    let parts = read_row(&exact, 8).unwrap().unwrap();
    assert_eq!(parts.signs, None);

    let zero = assemble_row(8, 0, &vec![], 0, &vec![]).unwrap();
    assert_eq!(zero, vec![0; 12]);
    assert!(read_row(&zero, 8).unwrap().is_none());
    assert!(!usable(f32::NAN.to_bits()));
    assert!(!usable((-0.0f32).to_bits()));
    assert!(usable(1.0f32.to_bits()));
    assert!(matches!(
        read_row(&zero, 16),
        Err(TurboError::RowLength { got: 12, expected: 16 })
    ));
}

#[test]
fn signs_come_from_the_index() {
    let first: Vec<bool> = (0..8).map(deterministic_sign_is_negative).collect();
    let expected: Vec<bool> = (0..8u32)
        .map(|index| {
            let mut x = index.wrapping_add(0x9E3779B9);
            x = (x ^ (x >> 15)).wrapping_mul(0x85EBCA6B);
            x = (x ^ (x >> 13)).wrapping_mul(0xC2B2AE35);
            (x ^ (x >> 16)) & 1 == 1
        })
        .collect();
    assert_eq!(first, expected);
}

#[test]
fn rows_must_fit_their_caches() {
    let row = row_bytes(8).unwrap();
    let input = desc(DType::F32, &[3, 2, 8]);
    let cache = desc(DType::U8, &[2, 2, 4, row]);
    assert!(is_turboquant_cache(&cache));
    let check = |k: &TensorDesc, v: &TensorDesc, kc: &TensorDesc, vc: &TensorDesc| {
        check_turbo_reshape(k, v, kc, vc).err()
    };
    assert!(check(&input, &input, &cache, &cache).is_none());
    let wide = desc(DType::F32, &[3, 2, usize::MAX]);
    assert!(matches!(
        check(&wide, &wide, &desc(DType::F16, &[2, 2, 4, row]), &cache),
        Some(TurboError::NotTurboCache)
    ));
    assert!(matches!(
        check(&wide, &wide, &cache, &cache),
        Some(TurboError::Layout(TurboLayoutError::HeadDimNotPowerOfTwo { .. }))
    ));
    assert!(matches!(
        check(&input, &input, &desc(DType::U8, &[2, 2, 4]), &cache),
        Some(TurboError::NotTurboCache)
    ));
    assert!(matches!(
        check(&desc(DType::F32, &[3, 16]), &input, &cache, &cache),
        Some(TurboError::InputRank)
    ));
    assert!(matches!(
        check(&desc(DType::F32, &[2, 2, 8]), &input, &cache, &cache),
        Some(TurboError::InputMismatch)
    ));
    assert!(matches!(
        check(&input, &input, &cache, &desc(DType::U8, &[3, 2, 4, row])),
        Some(TurboError::CacheMismatch)
    ));
    assert!(matches!(
        check(&input, &input, &cache, &desc(DType::U8, &[2, 2, 4, row + 1])),
        Some(TurboError::RowSize { .. })
    ));
    assert!(matches!(
        check_turbo_gather(&cache, &desc(DType::U8, &[2, 2, 4, 9])).err(),
        Some(TurboError::Layout(TurboLayoutError::RowBytes { row_bytes: 9 }))
    ));
    assert!(matches!(
        check_turbo_gather(
            &desc(DType::U8, &[2, 2, 4, 11]),
            &desc(DType::U8, &[2, 2, 4, 9])
        )
        .err(),
        Some(TurboError::Layout(TurboLayoutError::HeadDimNotPowerOfTwo { head_dim: 6 }))
    ));
    assert!(matches!(
        check_turbo_gather(&cache, &desc(DType::U8, &[2, 2, 4, 2])).err(),
        Some(TurboError::Layout(TurboLayoutError::RowTooShort { row_bytes: 2 }))
    ));
    assert!(check_turbo_slots(3, 3).is_ok());
    assert!(matches!(
        check_turbo_slots(2, 3).err(),
        Some(TurboError::SlotCount { slots: 2, tokens: 3 })
    ));
}
