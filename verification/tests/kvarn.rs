use quantcore::dtype::DType;
use quantcore::kvarn::cache::{
    check_gather, check_reshape, check_slots, cuda_fused_decode_enabled,
    cuda_quantizes_partial_blocks, find_row, is_kvarn_cache, KvarnError, RecordCache, RowSource,
};
use quantcore::kvarn::layout::{
    k_head_dim_from_record_bytes, key_head_dim_from_record_bytes, key_offsets, key_record_bytes,
    record_offset, v_head_dim_from_record_bytes, value_head_dim_from_record_bytes, value_offsets,
    value_record_bytes, KvarnLayoutError, KVARN_GROUP, STATUS_QUANTIZED, STATUS_RAW,
};
use quantcore::kvarn::record::{
    assemble_key_record, assemble_value_record, read_key_row, read_value_row,
};
use quantcore::kvarn::tail::{load_tail_row, TailStore};
use quantcore::paging::{indices_to_vec, plan_gather, plan_slots, slot_mapping_to_vec, IndexData};
use quantcore::tensor::{Place, TensorDesc};

fn desc(dtype: DType, dims: &[usize]) -> TensorDesc {
    TensorDesc {
        dtype,
        dims: dims.to_vec(),
        place: Place::Cpu,
    }
}

/// A cache of one head and one block, with its tail.
struct Side {
    cache: RecordCache,
    tails: TailStore,
}

fn side(record_bytes: usize, head_dim: usize) -> Side {
    Side {
        cache: RecordCache {
            num_blocks: 1,
            num_heads: 1,
            record_bytes,
            data: vec![0; record_bytes],
        },
        tails: TailStore::new(KVARN_GROUP, 1, head_dim),
    }
}

fn lowest_and_step(values: &[f32], levels: f32) -> (f32, f32) {
    let lo = values.iter().copied().fold(f32::INFINITY, f32::min);
    let hi = values.iter().copied().fold(f32::NEG_INFINITY, f32::max);
    (lo, ((hi - lo) / levels).max(1e-10))
}

fn half(value: f32) -> u16 {
    half::f16::from_f32(value).to_bits()
}

fn quantize_key(block: &[u32], head_dim: usize) -> Vec<u8> {
    let value = |token: usize, dim: usize| f32::from_bits(block[token * head_dim + dim]);
    let (mut codes, mut s_col, mut zero_points) = (Vec::new(), Vec::new(), Vec::new());
    for dim in 0..head_dim {
        let column: Vec<f32> = (0..KVARN_GROUP).map(|t| value(t, dim)).collect();
        let (lo, step) = lowest_and_step(&column, 15.0);
        s_col.push(half(step));
        zero_points.push(half(lo));
        codes.extend(column.iter().map(|v| ((v - lo) / step).round().min(15.0) as u8));
    }
    let s_row = vec![half(1.0); KVARN_GROUP];
    assemble_key_record(&codes, &s_col, &zero_points, &s_row, head_dim, KVARN_GROUP).unwrap()
}

fn quantize_value(block: &[u32], head_dim: usize) -> Vec<u8> {
    let (mut codes, mut s_row, mut zero_points) = (Vec::new(), Vec::new(), Vec::new());
    for token in 0..KVARN_GROUP {
        let row: Vec<f32> = block[token * head_dim..(token + 1) * head_dim]
            .iter()
            .map(|bits| f32::from_bits(*bits))
            .collect();
        let (lo, step) = lowest_and_step(&row, 3.0);
        s_row.push(half(step));
        zero_points.push(half(lo));
        codes.extend(row.iter().map(|v| ((v - lo) / step).round().min(3.0) as u8));
    }
    let s_col = vec![half(1.0); head_dim];
    assemble_value_record(&codes, &s_col, &s_row, &zero_points, head_dim, KVARN_GROUP).unwrap()
}

fn from_half(bits: u16) -> f32 {
    half::f16::from_bits(bits).to_f32()
}

fn store(side: &mut Side, values: &[f32], slots: &[i64], is_key: bool) {
    let head_dim = side.tails.head_dim;
    let slots = slot_mapping_to_vec(&IndexData::I64(slots.to_vec())).unwrap();
    let plan = plan_slots(&slots, side.cache.num_blocks, KVARN_GROUP);
    for write in &plan.writes {
        let row: Vec<u32> = values[write.token * head_dim..(write.token + 1) * head_dim]
            .iter()
            .map(|v| v.to_bits())
            .collect();
        let ready = side
            .cache
            .store_row(&mut side.tails, write.block, 0, write.offset, &row, false);
        if let Some(block) = ready {
            let record = if is_key {
                quantize_key(&block, head_dim)
            } else {
                quantize_value(&block, head_dim)
            };
            side.cache.write_record(write.block, 0, &record);
        }
    }
    assert!(plan.fault.is_none());
}

fn gather(side: &Side, tokens: usize, is_key: bool) -> Vec<Vec<f32>> {
    let head_dim = side.tails.head_dim;
    let table = indices_to_vec(&IndexData::I32(vec![0]), true).unwrap();
    let lens = indices_to_vec(&IndexData::U32(vec![0, tokens as u32]), true).unwrap();
    let reads = plan_gather(&vec![table], &lens, side.cache.num_blocks, KVARN_GROUP).unwrap();
    reads
        .iter()
        .map(|read| {
            match find_row(
                &side.cache,
                Some(&side.tails),
                read.block,
                0,
                read.offset,
                head_dim,
            ) {
                RowSource::Tail(bits) => bits.iter().map(|b| f32::from_bits(*b)).collect(),
                RowSource::Quantized(record) if is_key => {
                    let row = read_key_row(&record, head_dim, read.offset);
                    (0..head_dim)
                        .map(|d| {
                            (row.codes[d] as f32 * from_half(row.s_col[d])
                                + from_half(row.zero_points[d]))
                                * from_half(row.s_row)
                        })
                        .collect()
                }
                RowSource::Quantized(record) => {
                    let row = read_value_row(&record, head_dim, read.offset);
                    (0..head_dim)
                        .map(|d| {
                            (row.codes[d] as f32 * from_half(row.s_row)
                                + from_half(row.zero_point))
                                * from_half(row.s_col[d])
                        })
                        .collect()
                }
            }
        })
        .collect()
}

#[test]
fn record_sizes_roundtrip_head_dim() -> Result<(), KvarnLayoutError> {
    let key_bytes = key_record_bytes(128, KVARN_GROUP)?;
    let value_bytes = value_record_bytes(128, KVARN_GROUP)?;
    assert_eq!(key_head_dim_from_record_bytes(key_bytes, KVARN_GROUP)?, 128);
    assert_eq!(
        value_head_dim_from_record_bytes(value_bytes, KVARN_GROUP)?,
        128
    );
    Ok(())
}

#[test]
fn gathers_raw_partial_tail() -> Result<(), KvarnLayoutError> {
    let head_dim = 16;
    let mut keys = side(key_record_bytes(head_dim, KVARN_GROUP)?, head_dim);
    let mut values = side(value_record_bytes(head_dim, KVARN_GROUP)?, head_dim);
    let key: Vec<f32> = (0..3 * head_dim).map(|v| v as f32 / 31.0).collect();
    let value: Vec<f32> = (0..3 * head_dim)
        .map(|v| (v as f32 / 17.0).sin())
        .collect();
    store(&mut keys, &key, &[0, 1, 2], true);
    store(&mut values, &value, &[0, 1, 2], false);

    let k = gather(&keys, 3, true);
    let v = gather(&values, 3, false);
    assert_eq!((k.len(), k[0].len()), (3, head_dim));
    assert_eq!((v.len(), v[0].len()), (3, head_dim));
    assert_eq!(k.concat(), key);
    assert_eq!(v.concat(), value);
    Ok(())
}

#[test]
fn quantized_block_gathers_with_expected_shape() -> Result<(), KvarnLayoutError> {
    let head_dim = 16;
    let mut keys = side(key_record_bytes(head_dim, KVARN_GROUP)?, head_dim);
    let mut values = side(value_record_bytes(head_dim, KVARN_GROUP)?, head_dim);
    let key: Vec<f32> = (0..KVARN_GROUP * head_dim)
        .map(|v| ((v as f32) * 0.013).sin())
        .collect();
    let value: Vec<f32> = (0..KVARN_GROUP * head_dim)
        .map(|v| ((v as f32) * 0.021).cos())
        .collect();
    let slots: Vec<i64> = (0..KVARN_GROUP as i64).collect();
    store(&mut keys, &key, &slots, true);
    store(&mut values, &value, &slots, false);

    assert_eq!(keys.cache.data[0], STATUS_QUANTIZED);
    assert!(keys.cache.is_quantized(0, 0));

    let k = gather(&keys, KVARN_GROUP, true);
    let v = gather(&values, KVARN_GROUP, false);
    assert_eq!((k.len(), k[0].len()), (KVARN_GROUP, head_dim));
    assert_eq!((v.len(), v[0].len()), (KVARN_GROUP, head_dim));
    for (got, sent) in k.concat().iter().zip(&key) {
        assert!((got - sent).abs() < 0.08);
    }
    for (got, sent) in v.concat().iter().zip(&value) {
        assert!((got - sent).abs() < 0.4);
    }
    Ok(())
}

#[test]
fn layout_has_exact_sizes() {
    assert_eq!(key_record_bytes(128, 128), Ok(1 + 8192 + 768));
    assert_eq!(value_record_bytes(128, 128), Ok(1 + 4096 + 768));
    assert_eq!(key_offsets(128, 128), (1, 8193, 8449, 8705));
    assert_eq!(value_offsets(128, 128), (1, 4097, 4353, 4609));
    assert_eq!(record_offset(3, 1, 2, 100), 700);
    assert_eq!(k_head_dim_from_record_bytes(8961), Some(128));
    assert_eq!(v_head_dim_from_record_bytes(4865), Some(128));
}

#[test]
fn layout_refuses_other_shapes() {
    assert_eq!(
        key_record_bytes(128, 64),
        Err(KvarnLayoutError::BlockSize { block_size: 64 })
    );
    assert_eq!(
        key_record_bytes(96, 128),
        Err(KvarnLayoutError::HeadDimNotPowerOfTwo { head_dim: 96 })
    );
    assert_eq!(
        value_record_bytes(2, 128),
        Err(KvarnLayoutError::HeadDimNotPackable { head_dim: 2 })
    );
    assert_eq!(
        key_head_dim_from_record_bytes(258, 128),
        Err(KvarnLayoutError::KeyRecordBytes { record_bytes: 258 })
    );
    assert_eq!(
        value_head_dim_from_record_bytes(12, 128),
        Err(KvarnLayoutError::ValueRecordBytes { record_bytes: 12 })
    );
    assert_eq!(k_head_dim_from_record_bytes(258), None);
}

#[test]
fn packed_codes_read_back() {
    let head_dim = 4;
    let codes: Vec<u8> = (0..head_dim * 128).map(|i| (i % 16) as u8).collect();
    let s_col = vec![1, 2, 3, 4];
    let zero_points = vec![5, 6, 7, 8];
    let s_row: Vec<u16> = (100..228).collect();
    let record = assemble_key_record(&codes, &s_col, &zero_points, &s_row, head_dim, 128).unwrap();
    assert_eq!(record[1], 0x10);
    let row = read_key_row(&record, head_dim, 7);
    assert_eq!(row.codes, vec![7, 7, 7, 7]);
    assert_eq!(row.s_col, s_col);
    assert_eq!(row.zero_points, zero_points);
    assert_eq!(row.s_row, 107);

    let codes: Vec<u8> = (0..head_dim * 128).map(|i| (i % 4) as u8).collect();
    let points: Vec<u16> = (300..428).collect();
    let record = assemble_value_record(&codes, &s_col, &s_row, &points, head_dim, 128).unwrap();
    assert_eq!(record[1], 0b1110_0100);
    let row = read_value_row(&record, head_dim, 127);
    assert_eq!(row.codes, vec![0, 1, 2, 3]);
    assert_eq!((row.s_row, row.zero_point), (227, 427));
}

#[test]
fn tail_keeps_rows_until_the_block_is_full() {
    let mut tails = TailStore::new(4, 2, 2);
    assert_eq!(tails.store_row(3, 1, 0, &vec![1, 2], false), None);
    assert_eq!(
        tails.store_row(3, 1, 2, &vec![5, 6], true),
        Some(vec![1, 2, 0, 0, 5, 6, 0, 0])
    );
    assert_eq!(tails.load_row(3, 1, 0), vec![1, 2]);
    assert_eq!(tails.load_row(3, 0, 0), vec![0, 0]);
    assert_eq!(
        tails.store_row(3, 1, 3, &vec![7, 8], false),
        Some(vec![1, 2, 0, 0, 5, 6, 7, 8])
    );
    assert_eq!(tails.load_row(3, 1, 0), vec![0, 0]);
    assert_eq!(load_tail_row(None, 3, 1, 0, 2), vec![0, 0]);
    tails.store_row(0, 0, 1, &vec![9, 9], false);
    assert!(tails.matches(4, 2, 2));
    tails.prepare(4, 2, 2);
    assert_eq!(tails.load_row(0, 0, 1), vec![9, 9]);
    tails.prepare(4, 2, 1);
    assert!(tails.rows.is_empty());
}

#[test]
fn a_first_row_clears_what_the_block_held() {
    let mut tails = TailStore::new(4, 1, 1);
    tails.store_row(0, 0, 1, &vec![7], false);
    tails.store_row(0, 0, 0, &vec![3], false);
    assert_eq!(tails.load_row(0, 0, 1), vec![0]);
    assert_eq!(tails.load_row(0, 0, 0), vec![3]);
}

#[test]
fn records_do_not_overlap() {
    let mut cache = RecordCache {
        num_blocks: 2,
        num_heads: 2,
        record_bytes: 3,
        data: vec![9; 12],
    };
    cache.write_record(1, 0, &vec![STATUS_QUANTIZED, 4, 5]);
    assert_eq!(cache.read_record(1, 0), vec![STATUS_QUANTIZED, 4, 5]);
    assert_eq!(cache.read_record(0, 1), vec![9, 9, 9]);
    assert_eq!(cache.read_record(1, 1), vec![9, 9, 9]);
    cache.mark_record_raw(1, 0);
    assert_eq!(cache.read_record(1, 0), vec![STATUS_RAW, 4, 5]);
    assert!(!cache.is_quantized(1, 0));
}

#[test]
fn stored_rows_must_fit_their_caches() {
    let input = desc(DType::F32, &[3, 2, 16]);
    let keys = desc(DType::U8, &[5, 2, key_record_bytes(16, 128).unwrap()]);
    let values = desc(DType::U8, &[5, 2, value_record_bytes(16, 128).unwrap()]);
    assert!(is_kvarn_cache(&keys));
    let shape = check_reshape(&input, &input, &keys, &values).unwrap();
    assert_eq!((shape.num_tokens, shape.num_heads, shape.num_blocks), (3, 2, 5));
    assert_eq!((shape.k_head_dim, shape.v_head_dim), (16, 16));

    let float_cache = desc(DType::F16, &[5, 2, 9]);
    assert!(matches!(
        check_reshape(&input, &input, &float_cache, &values),
        Err(KvarnError::NotKvarnCache)
    ));
    assert!(matches!(
        check_reshape(&desc(DType::F32, &[3, 2]), &input, &keys, &values),
        Err(KvarnError::InputRank)
    ));
    assert!(matches!(
        check_reshape(&input, &desc(DType::F32, &[3, 1, 16]), &keys, &values),
        Err(KvarnError::InputMismatch)
    ));
    assert!(matches!(
        check_reshape(&input, &input, &keys, &desc(DType::U8, &[4, 2, 9])),
        Err(KvarnError::CacheMismatch)
    ));
    assert!(matches!(
        check_reshape(&input, &input, &desc(DType::U8, &[5, 2, 9]), &values),
        Err(KvarnError::RecordSize { .. })
    ));
    let odd = desc(DType::F32, &[3, 2, 12]);
    assert!(matches!(
        check_reshape(&odd, &input, &keys, &values),
        Err(KvarnError::Layout(KvarnLayoutError::HeadDimNotPowerOfTwo { head_dim: 12 }))
    ));
    assert!(matches!(
        check_reshape(&input, &odd, &desc(DType::U8, &[5, 2, 9]), &values),
        Err(KvarnError::Layout(KvarnLayoutError::HeadDimNotPowerOfTwo { head_dim: 12 }))
    ));
    let wide = desc(DType::F32, &[3, 2, usize::MAX]);
    assert!(matches!(
        check_reshape(&wide, &wide, &float_cache, &values),
        Err(KvarnError::NotKvarnCache)
    ));
    assert!(matches!(
        check_reshape(&wide, &wide, &keys, &values),
        Err(KvarnError::Layout(KvarnLayoutError::HeadDimNotPowerOfTwo { head_dim: usize::MAX }))
    ));
    assert_eq!(check_slots(3, shape.num_tokens), Ok(()));
    assert_eq!(
        check_slots(2, shape.num_tokens),
        Err(KvarnError::SlotCount { slots: 2, tokens: 3 })
    );
    let gathered = check_gather(&keys, &values).unwrap();
    assert_eq!((gathered.k_head_dim, gathered.v_head_dim), (16, 16));
    assert!(matches!(
        check_gather(&keys, &desc(DType::U8, &[5, 2, 9])),
        Err(KvarnError::Layout(KvarnLayoutError::ValueRecordBytes { record_bytes: 9 }))
    ));
    assert!(matches!(
        check_gather(&desc(DType::U8, &[5, 2, 7]), &desc(DType::U8, &[5, 2, 9])),
        Err(KvarnError::Layout(KvarnLayoutError::KeyRecordBytes { record_bytes: 7 }))
    ));
    let odd = desc(DType::U8, &[5, 2, 257 + 68 * 12]);
    assert!(matches!(
        check_gather(&odd, &values),
        Err(KvarnError::Layout(KvarnLayoutError::HeadDimNotPowerOfTwo { head_dim: 12 }))
    ));
}

#[test]
fn switches_default_to_on() {
    assert!(cuda_fused_decode_enabled(None));
    assert!(!cuda_fused_decode_enabled(Some("")));
    assert!(!cuda_fused_decode_enabled(Some(" ")));
    assert!(!cuda_fused_decode_enabled(Some("0")));
    assert!(!cuda_fused_decode_enabled(Some("False")));
    assert!(cuda_fused_decode_enabled(Some(" 0")));
    assert!(cuda_quantizes_partial_blocks(Place::Cuda, None));
    assert!(!cuda_quantizes_partial_blocks(Place::Cpu, None));
    assert!(!cuda_quantizes_partial_blocks(Place::Cuda, Some("false")));
}
