use quantcore::dtype::DType;
use quantcore::kvarn::layout::{key_record_bytes, value_record_bytes, KVARN_GROUP};
use quantcore::launch::checks::{LaunchError, Operand};
use quantcore::launch::kvarn::{
    use_cc61_kernel, KvarnDecodeInputs, KvarnDecodeKernel, KvarnStoreInputs, TailPool,
};
use quantcore::launch::legacy::{
    legacy_flash_attn_turboquant_allowed, DenseInputs, PagedInputs,
};
use quantcore::launch::mtp::{bound_context, product_is, MtpInputs};
use quantcore::launch::turbo::{
    TurboDecodeInputs, TurboGatherInputs, TurboGatherStep, TurboUpdateInputs,
};
use quantcore::tensor::{Place, TensorDesc};
use quantcore::turboquant::layout::row_bytes;

fn on_cuda(dtype: DType, dims: &[usize]) -> TensorDesc {
    TensorDesc {
        dtype,
        dims: dims.to_vec(),
        place: Place::Cuda,
    }
}

fn decode() -> KvarnDecodeInputs {
    KvarnDecodeInputs {
        query: on_cuda(DType::F16, &[3, 8, 128]),
        key_cache: on_cuda(DType::U8, &[5, 2, key_record_bytes(128, KVARN_GROUP).unwrap()]),
        value_cache: on_cuda(DType::U8, &[5, 2, value_record_bytes(128, KVARN_GROUP).unwrap()]),
        block_tables: on_cuda(DType::I32, &[3, 7]),
        cu_seq_lens: on_cuda(DType::U32, &[4]),
        tail: None,
    }
}

fn pool() -> TailPool {
    TailPool {
        key: on_cuda(DType::F16, &[9, 2, 128, 128]),
        value: on_cuda(DType::F16, &[9, 2, 128, 128]),
        key_slots: on_cuda(DType::I32, &[5]),
        value_slots: on_cuda(DType::I32, &[5]),
    }
}

fn decode_fault(change: impl Fn(&mut KvarnDecodeInputs)) -> Option<LaunchError> {
    let mut inputs = decode();
    change(&mut inputs);
    inputs.plan(KvarnDecodeKernel::Decode, false).err()
}

#[test]
fn kvarn_decode_launches_with_exact_sizes() {
    let mut inputs = decode();
    inputs.tail = Some(pool());
    let plan = inputs.plan(KvarnDecodeKernel::Mtp, true).unwrap();
    assert_eq!((plan.num_seqs, plan.num_heads, plan.num_kv_heads), (3, 8, 2));
    assert_eq!((plan.head_dim, plan.block_table_stride), (128, 7));
    assert_eq!((plan.k_record_bytes, plan.v_record_bytes), (8961, 4865));
    assert_eq!(plan.out_dims, vec![3, 8, 128]);
    assert_eq!((plan.cc61, plan.with_tail, plan.dtype_code), (true, true, 0));
    let plain = decode().plan(KvarnDecodeKernel::Decode, false).unwrap();
    assert!(!plain.with_tail);
}

#[test]
fn kvarn_decode_refuses_what_does_not_fit() {
    assert_eq!(
        decode_fault(|i| i.query.dtype = DType::U8),
        Some(LaunchError::UnsupportedDtype { dtype: DType::U8 })
    );
    assert_eq!(
        decode_fault(|i| i.key_cache.dtype = DType::F16),
        Some(LaunchError::CacheDtypes {
            key: DType::F16,
            value: DType::U8
        })
    );
    assert_eq!(
        decode_fault(|i| i.block_tables.dtype = DType::I64),
        Some(LaunchError::OperandDtype {
            operand: Operand::BlockTables,
            dtype: DType::I64
        })
    );
    assert_eq!(
        decode_fault(|i| i.query.dims = vec![3, 8]),
        Some(LaunchError::Rank {
            operand: Operand::Query,
            rank: 2
        })
    );
    assert_eq!(
        decode_fault(|i| i.query.dims = vec![3, 8, 2, 128]),
        Some(LaunchError::QueryLength { q_len: 2 })
    );
    assert_eq!(
        decode_fault(|i| i.key_cache.dims[2] = 7),
        Some(LaunchError::RecordBytes {
            operand: Operand::KeyCache,
            bytes: 7
        })
    );
    assert_eq!(
        decode_fault(|i| i.query.dims[2] = 64),
        Some(LaunchError::HeadDim {
            query: 64,
            key: 128,
            value: 128
        })
    );
    assert_eq!(
        decode_fault(|i| i.query.dims[1] = 7),
        Some(LaunchError::HeadGroups {
            num_heads: 7,
            num_kv_heads: 2
        })
    );
    assert_eq!(
        decode_fault(|i| i.cu_seq_lens.dims[0] = 3),
        Some(LaunchError::Length {
            operand: Operand::CuSeqLens,
            got: 3
        })
    );
    assert_eq!(
        decode_fault(|i| i.value_cache.place = Place::Cpu),
        Some(LaunchError::NotOnCuda {
            operand: Operand::ValueCache
        })
    );
    assert_eq!(
        decode_fault(|i| {
            let mut tail = pool();
            tail.key.dtype = DType::F32;
            i.tail = Some(tail);
        }),
        Some(LaunchError::TailDtypes {
            key: DType::F32,
            value: DType::F16
        })
    );
    assert_eq!(
        decode_fault(|i| {
            let mut tail = pool();
            tail.value.dims[1] = 3;
            i.tail = Some(tail);
        }),
        Some(LaunchError::TailMismatch)
    );
    let mut one = decode();
    one.query.dims[0] = 1;
    one.block_tables.dims[0] = 1;
    one.cu_seq_lens.dims[0] = 2;
    assert_eq!(
        one.plan(KvarnDecodeKernel::Mtp, false).err(),
        Some(LaunchError::QueryRows { rows: 1 })
    );
}

#[test]
fn kvarn_store_launches_with_exact_sizes() {
    let inputs = KvarnStoreInputs {
        key: on_cuda(DType::F16, &[4, 2, 128]),
        value: on_cuda(DType::F16, &[4, 2, 128]),
        key_cache: on_cuda(DType::U8, &[5, 2, 8961]),
        value_cache: on_cuda(DType::U8, &[5, 2, 4865]),
        key_tail_pool: on_cuda(DType::F16, &[9, 2, 128, 128]),
        value_tail_pool: on_cuda(DType::F16, &[9, 2, 128, 128]),
        slot_mapping: on_cuda(DType::I64, &[4]),
        key_tail_slots: on_cuda(DType::I32, &[4]),
        value_tail_slots: on_cuda(DType::I32, &[4]),
    };
    let plan = inputs.plan().unwrap();
    assert_eq!((plan.num_tokens, plan.num_heads, plan.head_dim), (4, 2, 128));
    assert_eq!((plan.num_blocks, plan.num_tail_slots, plan.block_size), (5, 9, 128));
    assert_eq!((plan.key_stride, plan.value_stride), (256, 256));
    let mut short = inputs;
    short.slot_mapping.dims[0] = 3;
    assert!(short.plan().is_err());
}

fn mtp() -> MtpInputs {
    MtpInputs {
        query: on_cuda(DType::BF16, &[6, 8, 64]),
        k_scale: None,
        v_scale: None,
        key_cache: on_cuda(DType::BF16, &[10, 2, 8, 16, 8]),
        value_cache: on_cuda(DType::BF16, &[10, 2, 64, 16]),
        key_strides: (2048, 1024),
        value_strides: (2048, 1024),
        block_tables: on_cuda(DType::I32, &[6, 4]),
        context_lens: on_cuda(DType::I32, &[6]),
        batch_size: 2,
        q_len: 3,
        max_context_len: 100,
        use_fp8: false,
    }
}

#[test]
fn mtp_launches_with_a_bounded_context() {
    let plan = mtp().plan().unwrap();
    assert_eq!((plan.batch_size, plan.q_len, plan.num_rows), (2, 3, 6));
    assert_eq!(plan.effective_max_context_len, 64);
    assert_eq!((plan.block_size, plan.x, plan.head_dim), (16, 8, 64));
    assert_eq!((plan.dtype_code, plan.cache_dtype_code), (1, 1));
    assert_eq!((plan.key_strides, plan.value_strides), ((2048, 1024), (2048, 1024)));
    assert_eq!(bound_context(100, 4, 16), 64);
    assert_eq!(bound_context(30, 4, 16), 30);
    assert!(product_is(3, 4, 12));
    assert!(!product_is(usize::MAX, 2, usize::MAX - 1));
}

#[test]
fn mtp_refuses_what_does_not_fit() {
    let mut tokens = mtp();
    tokens.q_len = 9;
    assert_eq!(
        tokens.plan().err(),
        Some(LaunchError::QueryTokens { q_len: 9 })
    );
    let mut rows = mtp();
    rows.batch_size = 3;
    assert_eq!(rows.plan().err(), Some(LaunchError::QueryRows { rows: 6 }));
    let mut fp8 = mtp();
    fp8.key_cache.dtype = DType::F8E4M3;
    fp8.value_cache.dtype = DType::F8E4M3;
    assert_eq!(fp8.plan().err(), Some(LaunchError::NoFp8));
    fp8.use_fp8 = true;
    assert_eq!(
        fp8.plan().err(),
        Some(LaunchError::MissingScale {
            operand: Operand::KeyScale
        })
    );
    fp8.k_scale = Some(on_cuda(DType::F32, &[1]));
    fp8.v_scale = Some(on_cuda(DType::F32, &[1]));
    let plan = fp8.plan().unwrap();
    assert_eq!(plan.cache_dtype_code, 3);
    assert!(plan.with_k_scale && plan.with_v_scale);
    fp8.v_scale = Some(on_cuda(DType::BF16, &[1]));
    assert_eq!(
        fp8.plan().err(),
        Some(LaunchError::OperandDtype {
            operand: Operand::ValueScale,
            dtype: DType::BF16
        })
    );
    fp8.k_scale = Some(on_cuda(DType::U8, &[1]));
    assert_eq!(
        fp8.plan().err(),
        Some(LaunchError::OperandDtype {
            operand: Operand::KeyScale,
            dtype: DType::U8
        })
    );
    let mut unused = mtp();
    unused.k_scale = Some(on_cuda(DType::F16, &[1]));
    assert_eq!(
        unused.plan().err(),
        Some(LaunchError::OperandDtype {
            operand: Operand::KeyScale,
            dtype: DType::F16
        })
    );
    let mut odd = mtp();
    odd.key_cache.dtype = DType::U8;
    assert_eq!(
        odd.plan().err(),
        Some(LaunchError::UnsupportedCacheDtype { dtype: DType::U8 })
    );
    let mut cache = mtp();
    cache.value_cache.dims[3] = 8;
    assert_eq!(cache.plan().err(), Some(LaunchError::CacheMismatch));
}

#[test]
fn legacy_kernels_launch_with_exact_sizes() {
    let dense = DenseInputs {
        query: on_cuda(DType::F16, &[2, 8, 1, 64]),
        key: on_cuda(DType::F16, &[2, 4, 9, 64]),
        value: on_cuda(DType::F16, &[2, 4, 9, 64]),
        window_size: 5,
    };
    let plan = dense.plan().unwrap();
    assert_eq!((plan.batch_size, plan.kv_len, plan.num_kv_heads), (2, 9, 4));
    assert_eq!((plan.num_heads, plan.head_dim, plan.window_size), (8, 64, 5));
    let mut short = dense;
    short.value.dims[2] = 8;
    assert_eq!(short.plan().err(), Some(LaunchError::InputMismatch));
    let mut mixed = short;
    mixed.value = on_cuda(DType::F32, &[2, 4, 9, 64]);
    assert_eq!(
        mixed.plan().err(),
        Some(LaunchError::OperandDtype {
            operand: Operand::Value,
            dtype: DType::F32
        })
    );
    mixed.key.dtype = DType::BF16;
    assert_eq!(
        mixed.plan().err(),
        Some(LaunchError::OperandDtype {
            operand: Operand::Key,
            dtype: DType::BF16
        })
    );

    let paged = PagedInputs {
        query: on_cuda(DType::F16, &[2, 8, 64]),
        key_cache: on_cuda(DType::F16, &[10, 2, 8, 16, 8]),
        value_cache: on_cuda(DType::F16, &[10, 2, 64, 16]),
        key_strides: (2048, 1024),
        value_strides: (4096, 2048),
        block_tables: on_cuda(DType::U32, &[2, 4]),
        context_lens: on_cuda(DType::U32, &[2]),
        window_size: 0,
    };
    let plan = paged.plan().unwrap();
    assert_eq!((plan.num_seqs, plan.max_context_len), (2, 64));
    assert_eq!((plan.block_size, plan.max_num_blocks_per_seq, plan.x), (16, 4, 8));
    assert_eq!((plan.key_strides, plan.value_strides), ((2048, 1024), (4096, 2048)));
    assert!(!legacy_flash_attn_turboquant_allowed(None));
    assert!(!legacy_flash_attn_turboquant_allowed(Some("")));
    assert!(legacy_flash_attn_turboquant_allowed(Some("bf16,fp8")));
    assert!(use_cc61_kernel(Some("1"), true));
    assert!(!use_cc61_kernel(Some("0"), false));
}

#[test]
fn turboquant_kernels_launch_with_exact_sizes() {
    let row = row_bytes(64).unwrap();
    let decode = TurboDecodeInputs {
        query: on_cuda(DType::F32, &[2, 8, 1, 64]),
        key_cache: on_cuda(DType::U8, &[5, 2, 16, row]),
        value_cache: on_cuda(DType::U8, &[5, 2, 16, row]),
        block_tables: on_cuda(DType::I32, &[2, 3]),
        cu_seq_lens: on_cuda(DType::I32, &[3]),
        window_size: 4,
    };
    let plan = decode.plan().unwrap();
    assert_eq!((plan.num_seqs, plan.block_size, plan.head_dim), (2, 16, 64));
    assert_eq!((plan.k_row_bytes, plan.window_size, plan.dtype_code), (40, 4, 2));

    let update = TurboUpdateInputs {
        key: on_cuda(DType::F16, &[6, 2, 64]),
        value: on_cuda(DType::F16, &[6, 2, 64]),
        key_cache: on_cuda(DType::U8, &[5, 2, 16, row]),
        value_cache: on_cuda(DType::U8, &[5, 2, 16, row]),
        slot_mapping: on_cuda(DType::I64, &[6]),
    };
    let plan = update.plan().unwrap();
    assert_eq!((plan.num_tokens, plan.k_head_dim, plan.v_row_bytes), (6, 64, 40));
    assert_eq!((plan.key_stride, plan.value_stride), (128, 128));

    let gather = TurboGatherInputs {
        key_cache: on_cuda(DType::U8, &[5, 2, 16, row]),
        value_cache: on_cuda(DType::U8, &[5, 2, 16, row]),
        block_table: on_cuda(DType::I32, &[2, 3]),
        cu_seq_lens: on_cuda(DType::I32, &[3]),
        out_dtype: DType::F16,
    };
    let setup = gather.setup().unwrap();
    assert_eq!((setup.num_seqs, setup.count_index, setup.k_head_dim), (2, 2, 64));
    assert!(matches!(gather.step(0), Ok(TurboGatherStep::Empty)));
    assert!(matches!(
        gather.step(7),
        Ok(TurboGatherStep::Launch {
            num_tokens: 7,
            block_table_stride: 3
        })
    ));
}

#[test]
fn earlier_faults_come_before_missing_heads() {
    let mut query = decode();
    query.key_cache.dims[1] = 0;
    query.value_cache.dims[1] = 0;
    assert!(query.check_before_heads(KvarnDecodeKernel::Decode).is_ok());
    query.query.dims[2] = 64;
    let fault = LaunchError::HeadDim {
        query: 64,
        key: 128,
        value: 128,
    };
    assert_eq!(
        query.check_before_heads(KvarnDecodeKernel::Decode).err(),
        Some(fault)
    );
    assert_eq!(query.plan(KvarnDecodeKernel::Decode, false).err(), Some(fault));
    let mut cache = mtp();
    cache.key_cache.dims[1] = 0;
    assert_eq!(cache.check_before_heads(), Some(LaunchError::CacheMismatch));
    assert_eq!(cache.plan().err(), Some(LaunchError::CacheMismatch));
    let dense = DenseInputs {
        query: on_cuda(DType::F16, &[2, 8, 2, 64]),
        key: on_cuda(DType::F16, &[2, 0, 9, 64]),
        value: on_cuda(DType::F16, &[2, 0, 9, 64]),
        window_size: 0,
    };
    assert_eq!(dense.plan().err(), Some(LaunchError::QueryLength { q_len: 2 }));
}

#[test]
fn earlier_faults_hide_rows_of_any_size() {
    let wide = on_cuda(DType::U8, &[5, 2, 16, usize::MAX]);
    let mut decode = TurboDecodeInputs {
        query: on_cuda(DType::U8, &[2, 8, 1, 64]),
        key_cache: wide.clone(),
        value_cache: wide.clone(),
        block_tables: on_cuda(DType::I32, &[2, 3]),
        cu_seq_lens: on_cuda(DType::I32, &[3]),
        window_size: 4,
    };
    assert_eq!(
        decode.plan().err(),
        Some(LaunchError::UnsupportedDtype { dtype: DType::U8 })
    );
    decode.query.dtype = DType::F16;
    decode.value_cache.dims[0] = 6;
    assert_eq!(decode.plan().err(), Some(LaunchError::CacheMismatch));
    decode.value_cache.dims[0] = 5;
    decode.key_cache.dims[3] = 9;
    assert_eq!(
        decode.plan().err(),
        Some(LaunchError::RecordBytes {
            operand: Operand::KeyCache,
            bytes: 9
        })
    );
    let mut update = TurboUpdateInputs {
        key: on_cuda(DType::F16, &[6, 2, usize::MAX]),
        value: on_cuda(DType::F16, &[6, 2, usize::MAX]),
        key_cache: on_cuda(DType::U8, &[5, 3, 16, 40]),
        value_cache: on_cuda(DType::U8, &[5, 3, 16, 40]),
        slot_mapping: on_cuda(DType::I64, &[6]),
    };
    assert_eq!(update.plan().err(), Some(LaunchError::CacheMismatch));
    update.key_cache.dims[1] = 2;
    update.value_cache.dims[1] = 2;
    update.key.dims[2] = 32;
    assert_eq!(
        update.plan().err(),
        Some(LaunchError::RecordBytes {
            operand: Operand::KeyCache,
            bytes: 40
        })
    );
}
