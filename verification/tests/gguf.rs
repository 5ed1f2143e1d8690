use candle_core::quantized::{GgmlDType as CandleDType, QMatMul, QTensor};
use candle_core::{Device, Module, Result, Tensor};
use half::f16;
use quantcore::dtype::DType;
use quantcore::gguf::blocks::{
    q4_1_blocks_from_raw, q4_1_q8_1_sum, q4k_blocks_from_raw, q4k_q8k_sums, sum_levels,
    unpack_q4k_scales, Q8KLevels, RawQ4KBlock, RawQ4_1Block,
};
use quantcore::gguf::cache::{dtype_key, CacheKey, FifoCache, StagedCache, StagedKey};
use quantcore::gguf::bias::{read_bias, read_block_layer, read_layer, write_bias};
use quantcore::gguf::header::{
    get_isq_type_from_uqff, read_record, version_is_compatible, write_record, RecordError,
    UQFF_VERSION,
};
use quantcore::gguf::limits::{cuda_staged_cache_max_bytes, GgufCpuRuntimeOptions};
use quantcore::gguf::matmul::{
    check_block_count, gather_route, is_legacy_capability, plan_fast_forward, plan_forward,
    plan_q4k_matmul, plan_requantize, quantized_act_type, uses_fast_mmvq, FastKernel, ForwardRoute,
    GatherRoute, RequantizeStep,
};
use quantcore::gguf::moe::{plan_fused, plan_indexed, MoeError, MoePath, WeightDesc};
use quantcore::gguf::staged::{
    compact_raw_experts, keeps_copies, select_experts, staged_raw_layout, StagedError,
    StagedInputs,
};
use quantcore::gguf::types::{
    cuda_staged_dtype_supported, ggml_dtype_from_uqff, GgmlDType, QK_K,
};
use quantcore::isq::IsqType;
use quantcore::routing::{
    expert_range, expert_runs, gather_shape, plan_routes, sorted_tasks, RoutingError,
};
use quantcore::tensor::Place;

/// A block of quantized activations.
struct Activation {
    d: f32,
    levels: Q8KLevels,
}

fn quantize_row(row: &[f32]) -> Vec<Activation> {
    row.chunks_exact(QK_K)
        .map(|xs| {
            let mut max = 0f32;
            for &x in xs {
                if max.abs() < x.abs() {
                    max = x;
                }
            }
            if max == 0.0 {
                return Activation {
                    d: 0.0,
                    levels: Q8KLevels::new(vec![0; QK_K]),
                };
            }
            let scale = -128f32 / max;
            let levels = xs
                .iter()
                .map(|x| (scale * x).round().min(127.0) as i8)
                .collect();
            Activation {
                d: 1.0 / scale,
                levels: Q8KLevels::new(levels),
            }
        })
        .collect()
}

fn dot(block: &RawQ4KBlock, y: &Activation) -> f32 {
    let sums = q4k_q8k_sums(block, &y.levels);
    f16::from_bits(block.d).to_f32() * y.d * sums.scaled as f32
        - f16::from_bits(block.dmin).to_f32() * y.d * sums.offset as f32
}

const DTYPES: [(CandleDType, GgmlDType); 12] = [
    (CandleDType::Q4_0, GgmlDType::Q4_0),
    (CandleDType::Q4_1, GgmlDType::Q4_1),
    (CandleDType::Q5_0, GgmlDType::Q5_0),
    (CandleDType::Q5_1, GgmlDType::Q5_1),
    (CandleDType::Q8_0, GgmlDType::Q8_0),
    (CandleDType::Q8_1, GgmlDType::Q8_1),
    (CandleDType::Q2K, GgmlDType::Q2K),
    (CandleDType::Q3K, GgmlDType::Q3K),
    (CandleDType::Q4K, GgmlDType::Q4K),
    (CandleDType::Q5K, GgmlDType::Q5K),
    (CandleDType::Q6K, GgmlDType::Q6K),
    (CandleDType::Q8K, GgmlDType::Q8K),
];

fn weights(dtype: GgmlDType, dims: &[usize]) -> WeightDesc {
    WeightDesc {
        quantized: true,
        dtype,
        dims: dims.to_vec(),
        on_cpu: true,
    }
}

#[test]
fn cpu_q4k_matmul_matches_candle_qmatmul() -> Result<()> {
    let in_features = QK_K * 2;
    let out_features = 96;
    let rows = 3;
    let values = (0..out_features * in_features)
        .map(|i| ((i % 97) as f32 - 48.0) / 37.0)
        .collect::<Vec<_>>();
    let input = (0..rows * in_features)
        .map(|i| ((i % 53) as f32 - 26.0) / 29.0)
        .collect::<Vec<_>>();

    let weight = Tensor::from_vec(values, (out_features, in_features), &Device::Cpu)?;
    let x = Tensor::from_vec(input.clone(), (rows, in_features), &Device::Cpu)?;
    let qtensor = QTensor::quantize(&weight, CandleDType::Q4K)?;
    let raw = qtensor.data()?.to_vec();
    let reference = QMatMul::from_qtensor(qtensor)?.forward(&x)?.to_vec2::<f32>()?;

    let plan = plan_q4k_matmul(
        true,
        &weights(GgmlDType::Q4K, &[out_features, in_features]),
        &vec![rows, in_features],
        true,
        64,
    )
    .unwrap()
    .expect("Q4K CPU matmul fast path should match");
    let blocks = q4k_blocks_from_raw(&raw).unwrap();
    check_block_count(blocks.len(), &plan).unwrap();
    assert_eq!(plan.out_dims, vec![rows, out_features]);

    for row in 0..plan.rows {
        let y = quantize_row(&input[row * in_features..(row + 1) * in_features]);
        for out in 0..plan.out_features {
            let fast: f32 = (0..plan.blocks_per_row)
                .map(|b| dot(&blocks[out * plan.blocks_per_row + b], &y[b]))
                .sum();
            let reference = reference[row][out];
            let diff = (fast - reference).abs();
            assert!(
                diff < 1e-3,
                "Q4K CPU matmul mismatch: fast={fast}, reference={reference}, diff={diff}"
            );
        }
    }
    Ok(())
}

#[test]
fn cpu_indexed_moe_accepts_supported_gguf_quant_dtypes() -> Result<()> {
    let num_experts = 3;
    let out_features = 8;
    let in_features = QK_K;
    let tokens = 2;
    let topk = 2;
    let values = (0..num_experts * out_features * in_features)
        .map(|i| ((i % 127) as f32 - 63.0) / 101.0)
        .collect::<Vec<_>>();
    let input = (0..tokens * in_features)
        .map(|i| ((i % 67) as f32 - 33.0) / 79.0)
        .collect::<Vec<_>>();
    let ids = vec![0u32, 2, 1, 0];
    let weight = Tensor::from_vec(
        values,
        (num_experts, out_features, in_features),
        &Device::Cpu,
    )?;

    let mut tested = 0;
    for (candle, dtype) in DTYPES {
        let qtensor = match QTensor::quantize(&weight, candle) {
            Ok(qtensor) => qtensor,
            Err(err) if err.to_string().contains("not supported") => continue,
            Err(err) => return Err(err),
        };
        let plan = plan_indexed(
            &weights(dtype, &[num_experts, out_features, in_features]),
            &vec![tokens, 1, in_features],
            &vec![tokens, topk],
            true,
        )
        .unwrap();
        let raw = qtensor.data()?.to_vec();
        assert_eq!(raw.len(), num_experts * plan.expert_bytes, "{dtype:?}");
        if dtype == GgmlDType::Q8_1 {
            // candle quantizes to this type and cannot decode it.
            continue;
        }
        let decoded = match qtensor.dequantize(&Device::Cpu) {
            Ok(decoded) => decoded.flatten_all()?.to_vec1::<f32>()?,
            Err(err) if err.to_string().contains("not supported") => continue,
            Err(err) => return Err(err),
        };
        let tasks = sorted_tasks(plan.shape, &ids, plan.experts, plan.out_features).unwrap();
        let mut output = vec![0f32; tokens * topk * out_features];
        for run in expert_runs(&tasks) {
            let (start, end) = expert_range(run.expert_id, plan.experts, plan.expert_bytes).unwrap();
            assert_eq!(end - start, plan.expert_bytes);
            for task in &tasks[run.start..run.end] {
                let x = &input[task.x_index * in_features..(task.x_index + 1) * in_features];
                for out in 0..out_features {
                    let row = (run.expert_id * out_features + out) * in_features;
                    output[task.out_offset + out] = x
                        .iter()
                        .zip(&decoded[row..row + in_features])
                        .map(|(a, b)| a * b)
                        .sum();
                }
            }
        }
        assert_eq!(
            (plan.shape.tokens, plan.shape.topk, plan.out_features),
            (tokens, topk, out_features),
            "{dtype:?}"
        );
        assert!(output.iter().all(|v| v.is_finite()));
        tested += 1;
    }
    assert!(tested > 0);
    Ok(())
}

#[test]
fn block_sizes_are_those_of_the_format() {
    for (candle, dtype) in DTYPES {
        assert_eq!(dtype.block_size(), candle.block_size(), "{dtype:?}");
        assert_eq!(dtype.type_size(), candle.type_size(), "{dtype:?}");
    }
}

#[test]
fn element_types_have_their_own_codes() {
    for (_, dtype) in DTYPES {
        assert_eq!(ggml_dtype_from_uqff(dtype.uqff_code()), Some(dtype));
    }
    assert_eq!(GgmlDType::F32.uqff_code(), 0);
    assert_eq!(GgmlDType::Q4K.uqff_code(), 12);
    assert_eq!(ggml_dtype_from_uqff(4), None);
    assert_eq!(GgmlDType::from_isq(IsqType::Q6K), Some(GgmlDType::Q6K));
    assert_eq!(GgmlDType::from_isq(IsqType::HQZ4), None);
    assert_eq!(GgmlDType::Q8K.to_isq(), Some(IsqType::Q8K));
    assert_eq!(GgmlDType::F16.to_isq(), None);
    assert!(cuda_staged_dtype_supported(GgmlDType::Q4K));
    assert!(!cuda_staged_dtype_supported(GgmlDType::F32));
}

#[test]
fn blocks_are_cut_out_of_bytes() {
    let raw: Vec<u8> = (0..40).collect();
    let blocks = q4_1_blocks_from_raw(&raw).unwrap();
    assert_eq!(blocks.len(), 2);
    assert_eq!((blocks[1].d, blocks[1].m), (0x1514, 0x1716));
    assert_eq!(blocks[1].qs, (24..40).collect::<Vec<u8>>());
    let fault = q4_1_blocks_from_raw(&raw[..39]).err().unwrap();
    assert_eq!((fault.len, fault.block_bytes), (39, 20));
    assert!(q4k_blocks_from_raw(&raw).is_err());
    let raw: Vec<u8> = (0..144).collect();
    let blocks = q4k_blocks_from_raw(&raw).unwrap();
    assert_eq!(blocks[0].scales, (4..16).collect::<Vec<u8>>());
    assert_eq!(blocks[0].qs.len(), 128);
}

#[test]
fn levels_are_summed() {
    let block = RawQ4_1Block {
        d: 0,
        m: 0,
        qs: vec![0x21; 16],
    };
    let levels: Vec<i8> = (0..32).map(|i| if i < 16 { 3 } else { -5 }).collect();
    assert_eq!(q4_1_q8_1_sum(&block, &levels), 16 * 3 - 16 * 10);
    assert_eq!(sum_levels(&levels, 14, 4), 6 - 10);
    let all = Q8KLevels::new(vec![-128; 256]);
    assert_eq!(all.bsums, vec![-2048; 16]);
}

#[test]
fn scales_have_six_bits() {
    let packed = vec![0xff, 0x01, 0x02, 0x03, 0x44, 0x05, 0x06, 0x07, 0x98, 0, 0, 0];
    let unpacked = unpack_q4k_scales(&packed);
    assert_eq!(unpacked.scales[0], 0x3f);
    assert_eq!(unpacked.mins[0], 0x04);
    assert_eq!(unpacked.scales[4], 0x38);
    assert_eq!(unpacked.mins[4], 0x19);
    let ones = RawQ4KBlock {
        d: 0,
        dmin: 0,
        scales: vec![1, 1, 1, 1, 1, 1, 1, 1, 0x11, 0x11, 0x11, 0x11],
        qs: vec![0x11; 128],
    };
    let sums = q4k_q8k_sums(&ones, &Q8KLevels::new(vec![2; 256]));
    assert_eq!((sums.scaled, sums.offset), (512, 512));
}

#[test]
fn the_oldest_value_leaves_a_full_cache() {
    let key = |expert: usize| CacheKey {
        tensor: 7,
        expert,
        dtype: dtype_key(DType::F32),
    };
    let mut cache = FifoCache::new();
    cache.insert(key(0), "a", 2);
    cache.insert(key(1), "b", 2);
    cache.insert(key(2), "c", 2);
    assert_eq!(cache.get(key(0)), None);
    assert_eq!(cache.get(key(1)), Some(&"b"));
    assert_eq!(cache.get(key(2)), Some(&"c"));
    cache.insert(key(2), "again", 2);
    assert_eq!(cache.get(key(2)), Some(&"c"));
    cache.insert(key(3), "d", 0);
    assert_eq!(cache.get(key(3)), None);
}

#[test]
fn the_least_recently_used_copy_leaves_first() {
    let key = |expert: usize| StagedKey {
        tensor: 1,
        device: 0,
        experts: vec![expert],
    };
    let mut cache = StagedCache::new();
    cache.insert(key(0), "a", 4, 10);
    cache.insert(key(1), "b", 4, 10);
    assert!(cache.touch(&key(0)));
    assert_eq!(cache.last(), Some(&"a"));
    cache.insert(key(2), "c", 4, 10);
    assert_eq!(cache.bytes, 8);
    assert!(!cache.touch(&key(1)));
    assert!(cache.touch(&key(0)));
    assert!(cache.touch(&key(2)));
    assert_eq!(cache.last(), Some(&"c"));
}

fn options() -> GgufCpuRuntimeOptions {
    GgufCpuRuntimeOptions {
        cpu_moe_expert_cache: None,
        cpu_moe_q4_1_expert_cache: None,
        cpu_moe_q4k_expert_cache: None,
        cpu_moe_parallel_topk: None,
        cpu_q4k_matmul: None,
        cpu_q4k_matmul_cache: None,
        cpu_q4k_matmul_max_rows: None,
    }
}

#[test]
fn limits_have_defaults_and_overrides() {
    let unset = options();
    assert_eq!(unset.expert_cache_limit(None), 0);
    assert_eq!(unset.q4_1_expert_cache_limit(None), 256);
    assert_eq!(unset.q4k_expert_cache_limit(Some("many")), 1024);
    assert_eq!(unset.q4k_matmul_cache_limit(Some("9")), 9);
    assert_eq!(unset.q4k_matmul_max_rows(None), 64);
    assert!(unset.q4k_matmul_enabled(None));
    assert!(!unset.q4k_matmul_enabled(Some("0")));
    assert!(unset.q4k_fused_moe_parallel_topk_enabled(Some("no")));
    let mut set = options();
    set.cpu_q4k_matmul = Some(false);
    set.cpu_q4k_matmul_max_rows = Some(3);
    assert!(!set.q4k_matmul_enabled(Some("1")));
    assert_eq!(set.q4k_matmul_max_rows(Some("8")), 3);
    assert_eq!(cuda_staged_cache_max_bytes(Some("0")), 0);
    assert_eq!(cuda_staged_cache_max_bytes(Some("3")), 3 << 20);
}

#[test]
fn a_written_record_reads_back() {
    let data: Vec<u8> = (0..144).collect();
    let bytes = write_record(GgmlDType::Q4K, &vec![1, 256], &data, Some(&vec![9, 9]));
    let record = read_record(&bytes).unwrap();
    assert_eq!(record.dtype, GgmlDType::Q4K);
    assert_eq!(record.dims, vec![1, 256]);
    assert!(record.has_bias);
    assert_eq!(&bytes[record.data_offset..record.data_offset + record.data_len], &data[..]);
    assert!(matches!(get_isq_type_from_uqff(&bytes), Ok(IsqType::Q4K)));
    assert_eq!(bytes[..4], UQFF_VERSION.to_le_bytes());
    assert!(version_is_compatible(UQFF_VERSION));
}

#[test]
fn broken_records_are_refused() {
    let data = vec![0u8; 144];
    let good = write_record(GgmlDType::Q4K, &vec![1, 256], &data, None);
    assert!(matches!(read_record(&good[..3]), Err(RecordError::Truncated)));
    let mut version = good.clone();
    version[2] = 9;
    assert!(matches!(read_record(&version), Err(RecordError::Version { .. })));
    let mut format = good.clone();
    format[4] = 3;
    assert!(matches!(read_record(&format), Err(RecordError::Format { format: 3 })));
    assert!(matches!(read_block_layer(&format), Ok(None)));
    assert!(matches!(read_block_layer(&good), Ok(Some(_))));
    assert!(matches!(read_block_layer(&version), Err(RecordError::Version { .. })));
    let mut dtype = good.clone();
    dtype[10] = 99;
    assert!(matches!(read_record(&dtype), Err(RecordError::Dtype { code: 99 })));
    let short = &good[..good.len() - 1];
    assert!(matches!(read_record(short), Err(RecordError::DataLength { data_len: 144 })));
    let plain = write_record(GgmlDType::F32, &vec![1], &vec![0; 4], None);
    assert!(matches!(
        get_isq_type_from_uqff(&plain),
        Err(RecordError::Unquantized {
            dtype: GgmlDType::F32
        })
    ));
}

#[test]
fn tokens_are_routed_to_their_experts() {
    let shape = gather_shape(&vec![2, 1, 16], &vec![2, 2], 16).unwrap();
    let tasks = sorted_tasks(shape, &vec![2, 0, 0, 1], 3, 4).unwrap();
    let experts: Vec<usize> = tasks.iter().map(|t| t.expert_id).collect();
    assert_eq!(experts, vec![0, 0, 1, 2]);
    let last = &tasks[3];
    assert_eq!((last.x_index, last.out_offset), (0, 0));
    let runs: Vec<(usize, usize, usize)> = expert_runs(&tasks)
        .iter()
        .map(|r| (r.expert_id, r.start, r.end))
        .collect();
    assert_eq!(runs, vec![(0, 0, 2), (1, 2, 3), (2, 3, 4)]);

    let plan = plan_routes(shape, &vec![2, 0, 3, 1], 3, 4);
    assert_eq!(plan.tasks.len(), 2);
    assert!(matches!(
        plan.fault,
        Some(RoutingError::ExpertRange {
            expert: 3,
            experts: 3
        })
    ));
    assert!(gather_shape(&vec![2, 1, 8], &vec![2, 2], 16).is_err());
    assert!(gather_shape(&vec![2, 1, 16], &vec![2], 16).is_err());
    assert!(matches!(
        gather_shape(&vec![2, 3, 16], &vec![2, 2], 16),
        Err(RoutingError::TopK { input: 3, ids: 2 })
    ));
    assert_eq!(expert_range(2, 3, 10).ok(), Some((20, 30)));
    assert!(expert_range(3, 3, 10).is_err());
}

#[test]
fn indexed_experts_choose_their_path() {
    let ids = vec![2, 2];
    let x = vec![2, 1, 256];
    let path = |dtype: GgmlDType| {
        plan_indexed(&weights(dtype, &[3, 8, 256]), &x, &ids, true).map(|p| p.path)
    };
    assert!(matches!(path(GgmlDType::Q4_1), Ok(MoePath::Q4_1)));
    assert!(matches!(path(GgmlDType::Q4K), Ok(MoePath::Q4K)));
    assert!(matches!(path(GgmlDType::Q6K), Ok(MoePath::Decoded)));
    assert!(matches!(
        plan_indexed(&weights(GgmlDType::Q4K, &[8, 256]), &x, &ids, true),
        Err(MoeError::WeightRank)
    ));
    assert!(matches!(
        plan_indexed(&weights(GgmlDType::Q4K, &[3, 8, 100]), &vec![2, 1, 100], &ids, true),
        Err(MoeError::Alignment {
            in_features: 100,
            block_size: 256
        })
    ));
    assert!(matches!(
        plan_indexed(&weights(GgmlDType::Q4K, &[3, 8, 256]), &vec![2, 256], &vec![2, 3], true),
        Err(_)
    ));
    assert!(matches!(
        plan_indexed(&weights(GgmlDType::Q4K, &[3, usize::MAX, 512]), &x, &ids, true),
        Err(MoeError::Routing { .. })
    ));
}

#[test]
fn fused_experts_must_agree() {
    let gate = weights(GgmlDType::Q4K, &[3, 512, 256]);
    let down = weights(GgmlDType::Q4K, &[3, 256, 512]);
    let x = vec![1, 2, 256];
    let plan = plan_fused(&gate, &gate, &down, &x, &vec![2, 2], &vec![2, 2], true)
        .unwrap()
        .unwrap();
    assert_eq!((plan.experts, plan.inter, plan.hidden), (3, 512, 256));
    assert_eq!((plan.tokens, plan.topk), (2, 2));
    assert_eq!(plan.gate_expert_bytes, 512 * 144);
    assert_eq!(plan.down_expert_bytes, 256 * 2 * 144);
    let other = weights(GgmlDType::Q6K, &[3, 512, 256]);
    assert!(matches!(
        plan_fused(&other, &gate, &down, &x, &vec![2, 2], &vec![2, 2], true),
        Ok(None)
    ));
    assert!(matches!(
        plan_fused(&gate, &gate, &gate, &x, &vec![2, 2], &vec![2, 2], true),
        Err(MoeError::ShapeMismatch)
    ));
    assert!(matches!(
        plan_fused(&gate, &gate, &down, &x, &vec![2, 2], &vec![3, 2], true),
        Err(MoeError::IdTokens { ids: 3, tokens: 2 })
    ));
    assert!(matches!(
        plan_fused(&gate, &gate, &down, &x, &vec![2, 3], &vec![2, 2], true),
        Err(MoeError::RouteWeights)
    ));
    let many = vec![usize::MAX, 2, 128];
    assert!(matches!(
        plan_fused(&gate, &gate, &down, &many, &vec![2, 2], &vec![2, 2], true),
        Err(MoeError::Hidden { input: 128, weights: 256 })
    ));
    let large = weights(GgmlDType::Q4K, &[3, usize::MAX - 255, 256]);
    let flat = weights(GgmlDType::Q4K, &[3, 256, usize::MAX - 255]);
    assert!(matches!(
        plan_fused(&large, &large, &flat, &x, &vec![2, 2], &vec![2], true),
        Err(MoeError::IdRank)
    ));
}

#[test]
fn matmul_takes_only_what_it_can() {
    let many = vec![usize::MAX, usize::MAX, 512];
    assert!(matches!(
        plan_q4k_matmul(false, &weights(GgmlDType::Q4K, &[96, 512]), &many, true, 64),
        Ok(None)
    ));
    assert!(matches!(
        plan_q4k_matmul(true, &weights(GgmlDType::Q4K, &[96, 500]), &many, true, 64),
        Err(MoeError::Alignment {
            in_features: 500,
            block_size: 256
        })
    ));
    let w = weights(GgmlDType::Q4K, &[96, 512]);
    let plan = |enabled: bool, dims: &[usize], rows: usize| {
        plan_q4k_matmul(enabled, &w, &dims.to_vec(), true, rows)
    };
    assert!(matches!(plan(false, &[3, 512], 64), Ok(None)));
    assert!(matches!(plan(true, &[3, 512], 2), Ok(None)));
    assert!(matches!(plan(true, &[3, 256], 64), Ok(None) | Err(_)));
    assert_eq!(plan(true, &[2, 3, 512], 64).unwrap().unwrap().out_dims, vec![2, 3, 96]);
    let found = plan(true, &[3, 512], 64).unwrap().unwrap();
    assert!(matches!(
        check_block_count(5, &found),
        Err(MoeError::BlockCount { blocks: 5 })
    ));
}

#[test]
fn kernels_are_chosen_by_size_and_place() {
    assert!(is_legacy_capability(6, 1));
    assert!(!is_legacy_capability(8, 0));
    assert!(!uses_fast_mmvq(false, true, true, None, false));
    assert!(uses_fast_mmvq(true, true, true, None, false));
    assert_eq!(
        plan_fast_forward(true, &vec![1, 4, 64], true, DType::F16),
        Some(FastKernel::Mmvq)
    );
    assert_eq!(
        plan_fast_forward(true, &vec![3, 4, 64], true, DType::F16),
        Some(FastKernel::Mmq)
    );
    assert_eq!(plan_fast_forward(false, &vec![1, 4, 64], true, DType::F16), None);
    let route = |fast: bool, weights: Place, x: Place| {
        plan_forward(fast, weights, &vec![1, 4, 64], x, DType::F16)
    };
    let kernel = FastKernel::Mmvq;
    assert_eq!(route(true, Place::Cuda, Place::Cuda), ForwardRoute::Fast { kernel });
    assert_eq!(route(true, Place::Cuda, Place::Cpu), ForwardRoute::MovedFast { kernel });
    assert_eq!(route(false, Place::Cuda, Place::Cpu), ForwardRoute::Moved);
    assert_eq!(route(false, Place::Cpu, Place::Cpu), ForwardRoute::InPlace);
    assert_eq!(quantized_act_type(true), None);
    assert_eq!(quantized_act_type(false), Some(DType::F32));
    assert_eq!(gather_route(Place::Cuda, Place::Cuda), GatherRoute::Cuda);
    assert_eq!(gather_route(Place::Cpu, Place::Cpu), GatherRoute::InPlace);
    assert_eq!(plan_requantize(None), Some(RequantizeStep::Move));
    assert_eq!(plan_requantize(Some(IsqType::F8Q8)), Some(RequantizeStep::F8Q8));
    assert_eq!(
        plan_requantize(Some(IsqType::Q5K)),
        Some(RequantizeStep::Blocks {
            dtype: GgmlDType::Q5K
        })
    );
    assert_eq!(plan_requantize(Some(IsqType::HQZ4)), None);
}

#[test]
fn selected_experts_are_copied_and_renumbered() {
    let selection = select_experts(&vec![5, 2, 5, 7], 8).unwrap().unwrap();
    for (id, compact) in [5usize, 2, 5, 7].iter().zip(&selection.compact_ids) {
        assert_eq!(selection.expert_ids[*compact as usize], *id);
    }
    assert!(matches!(
        select_experts(&vec![8], 8),
        Err(StagedError::ExpertRange {
            expert: 8,
            experts: 8
        })
    ));
    let layout = staged_raw_layout(GgmlDType::Q4_0, &vec![3, 2, 32], 108).unwrap();
    assert_eq!(layout.expert_bytes, 36);
    let data: Vec<u8> = (0..108).collect();
    let compact = compact_raw_experts(layout, &data, &vec![2, 0]).unwrap();
    assert_eq!(compact.len(), 72);
    assert_eq!((compact[0], compact[36]), (72, 0));
    assert!(compact_raw_experts(layout, &data, &vec![3]).is_err());
    assert!(matches!(
        staged_raw_layout(GgmlDType::Q4_0, &vec![3, 2, 32], 107),
        Err(StagedError::DataLength {
            expected: 108,
            got: 107
        })
    ));
    assert!(matches!(
        staged_raw_layout(GgmlDType::Q4_0, &vec![3, 2, 33], 108),
        Err(StagedError::Alignment { .. })
    ));
    assert_eq!(keeps_copies(36, 2, 100).unwrap(), Some(72));
    assert_eq!(keeps_copies(36, 3, 100).unwrap(), None);
}

#[test]
fn staged_experts_must_agree() {
    let inputs = |up: &[usize], x: &[usize]| StagedInputs {
        gate: weights(GgmlDType::Q4K, &[3, 512, 256]),
        up: weights(GgmlDType::Q4K, up),
        down: weights(GgmlDType::Q4K, &[3, 256, 512]),
        x: x.to_vec(),
        ids: vec![2, 2],
        route_weights: vec![2, 2],
        on_cuda: true,
    };
    let shape = inputs(&[3, 512, 256], &[2, 256]).plan().unwrap().unwrap();
    assert_eq!((shape.tokens, shape.topk, shape.hidden), (2, 2, 256));
    assert_eq!((shape.intermediate, shape.experts), (512, 3));
    assert!(matches!(
        inputs(&[3, 256, 256], &[2, 256]).plan(),
        Err(StagedError::GateUpShape)
    ));
    assert!(inputs(&[3, 512, 256], &[2, 128]).plan().is_err());
}

#[test]
fn layers_read_back_with_their_bias_and_not_cut() {
    let values = [1.5f32, -2.0, 0.25];
    let data: Vec<u8> = values.iter().flat_map(|x| x.to_le_bytes()).collect();
    let bias = write_bias(DType::F32, &vec![3], &data);
    assert_eq!(&bias[..16], &[12, 0, 0, 0, 7, 0, 0, 0, 1, 0, 0, 0, 3, 0, 0, 0]);
    let blocks = vec![9u8; 144];
    let record = write_record(GgmlDType::Q4K, &vec![1, 256], &blocks, Some(&bias));
    let layer = read_layer(&record).unwrap();
    assert_eq!(layer.record.dtype, GgmlDType::Q4K);
    assert_eq!(layer.record.dims, vec![1, 256]);
    let read = layer.bias.unwrap();
    assert_eq!((read.dtype, read.dims.clone()), (DType::F32, vec![3]));
    assert_eq!(
        &record[read.data_offset..read.data_offset + read.data_len],
        &data[..]
    );
    for n in 0..record.len() {
        assert!(read_layer(&record[..n]).is_err());
    }
    let plain = write_record(GgmlDType::Q4K, &vec![1, 256], &blocks, None);
    assert!(read_layer(&plain).unwrap().bias.is_none());
    assert!(read_layer(&plain[..plain.len() - 1]).is_err());
    let mut unknown = bias.clone();
    unknown[4] = 14;
    assert_eq!(
        read_bias(&unknown, 0).err(),
        Some(RecordError::BiasDtype { code: 14 })
    );
    assert_eq!(read_bias(&bias[..3], 0).err(), Some(RecordError::Truncated));
    assert_eq!(
        read_bias(&bias[..20], 0).err(),
        Some(RecordError::DataLength { data_len: 12 })
    );
}
