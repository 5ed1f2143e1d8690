use quantcore::cache_engine::{
    calculate_key_block_shape, calculate_value_block_shape, CacheConfig, CacheEngine, CacheError,
    KvCacheLayout, LayerHeads, ModelHeads, PagedCacheType,
};
use quantcore::dtype::{cache_dtype_code, dtype_code, DType};
use quantcore::kvarn::layout::KvarnLayoutError;
use quantcore::tensor::DeviceLocation;
use quantcore::turboquant::layout::TurboLayoutError;

fn heads(num_kv_heads: usize, dim: usize) -> LayerHeads {
    LayerHeads {
        num_kv_heads,
        k_head_dim: dim,
        v_head_dim: dim,
    }
}

fn model(layout: KvCacheLayout, layers: usize, dim: usize) -> ModelHeads {
    ModelHeads {
        layout,
        layers: (0..layers).map(|_| heads(2, dim)).collect(),
    }
}

fn engine_on(
    model: &ModelHeads,
    config: &CacheConfig,
    devices: usize,
) -> Result<CacheEngine, CacheError> {
    CacheEngine::new(
        model,
        config,
        DType::F16,
        DeviceLocation::Cpu,
        &vec![None; devices],
    )
}

fn config(cache_type: PagedCacheType, block_size: usize) -> CacheConfig {
    CacheConfig {
        block_size,
        num_gpu_blocks: 3,
        cache_type,
        kv_cache_group_ids: vec![0],
    }
}

#[test]
fn parses_turboquant_cache_type() {
    assert_eq!(
        "turboquant".parse::<PagedCacheType>().unwrap(),
        PagedCacheType::TurboQuant()
    );
    assert_eq!(
        "tq".parse::<PagedCacheType>().unwrap(),
        PagedCacheType::TurboQuant()
    );
}

#[test]
fn turboquant_cache_type_uses_u8_storage() -> Result<(), CacheError> {
    assert_eq!(
        PagedCacheType::TurboQuant().to_dtype(DType::F16)?,
        DType::U8
    );
    Ok(())
}

#[test]
fn parses_turboquant_cached_cache_type() {
    assert_eq!(
        "turboquant_cached:512".parse::<PagedCacheType>().unwrap(),
        PagedCacheType::TurboQuantCached {
            decoded_cache_mb: 512
        }
    );
}

#[test]
fn turboquant_cached_cache_type_uses_u8_primary_storage() -> Result<(), CacheError> {
    assert_eq!(
        PagedCacheType::TurboQuantCached {
            decoded_cache_mb: 512
        }
        .to_dtype(DType::F16)?,
        DType::U8
    );
    Ok(())
}

#[test]
fn parses_kvarn_cache_type() {
    assert_eq!(
        "kvarn".parse::<PagedCacheType>().unwrap(),
        PagedCacheType::KVarN()
    );
    assert_eq!(
        "kvarn_k4v2_g128".parse::<PagedCacheType>().unwrap(),
        PagedCacheType::KVarN()
    );
}

#[test]
fn kvarn_cache_type_uses_u8_storage() -> Result<(), CacheError> {
    assert_eq!(PagedCacheType::KVarN().to_dtype(DType::F16)?, DType::U8);
    Ok(())
}

#[test]
fn other_cache_types_parse_or_are_refused() {
    assert_eq!(
        "auto".parse::<PagedCacheType>().unwrap(),
        PagedCacheType::Auto()
    );
    assert_eq!(PagedCacheType::default(), PagedCacheType::Auto());
    assert_eq!(
        "f8e4m3".parse::<PagedCacheType>().unwrap(),
        PagedCacheType::F8E4M3()
    );
    for text in ["turboquant_cached:", "turboquant_cached:many", "xturboquant_cached:7"] {
        assert_eq!(
            text.parse::<PagedCacheType>().unwrap(),
            PagedCacheType::TurboQuantCached {
                decoded_cache_mb: 512
            }
        );
    }
    assert_eq!(
        "fp8".parse::<PagedCacheType>().unwrap_err(),
        "Unexpected `PagedCacheType`, got `fp8` but expected `auto`, `f8e4m3`, `turboquant`, or \
         `kvarn`."
    );
}

#[test]
fn cache_types_know_what_they_are() {
    assert!(PagedCacheType::TurboQuant().is_turboquant());
    assert!(!PagedCacheType::KVarN().is_turboquant());
    assert!(PagedCacheType::KVarN().is_kvarn());
    assert!(!PagedCacheType::Auto().is_kvarn());
    assert_eq!(
        PagedCacheType::TurboQuantCached {
            decoded_cache_mb: 9
        }
        .turboquant_cache_decoded_size(),
        Some(9)
    );
    assert_eq!(PagedCacheType::Auto().turboquant_cache_decoded_size(), None);
}

#[test]
fn blocks_of_all_layers_are_counted_in_bytes() {
    let plain = model(KvCacheLayout::Standard, 2, 64);
    assert_eq!(
        PagedCacheType::Auto().bytes_per_block_all_layers(DType::F16, &plain, 16),
        Ok(2 * 2 * 128 * 16 * 2)
    );
    assert_eq!(
        PagedCacheType::TurboQuant().bytes_per_block_all_layers(DType::F16, &plain, 16),
        Ok(2 * 2 * (40 + 40) * 16)
    );
    let kvarn = PagedCacheType::KVarN().bytes_per_block_all_layers(DType::F16, &plain, 128);
    assert_eq!(kvarn, Ok(2 * 2 * (4609 + 2689)));
    let mla = model(
        KvCacheLayout::Mla {
            kv_lora_rank: 512,
            kpe_head_dim: 64,
        },
        2,
        64,
    );
    assert_eq!(
        PagedCacheType::Auto().bytes_per_block_all_layers(DType::BF16, &mla, 16),
        Ok(2 * 16 * 576 * 2)
    );
}

#[test]
fn impossible_layers_are_refused() {
    let mla = model(
        KvCacheLayout::Mla {
            kv_lora_rank: 512,
            kpe_head_dim: 64,
        },
        1,
        64,
    );
    assert_eq!(
        PagedCacheType::KVarN().bytes_per_block_all_layers(DType::F16, &mla, 128),
        Err(CacheError::MlaUnsupported)
    );
    let odd = model(KvCacheLayout::Standard, 1, 48);
    assert_eq!(
        PagedCacheType::TurboQuant().bytes_per_block_all_layers(DType::F16, &odd, 16),
        Err(CacheError::Turbo(TurboLayoutError::HeadDimNotPowerOfTwo {
            head_dim: 48
        }))
    );
    assert_eq!(
        PagedCacheType::KVarN().bytes_per_block_all_layers(
            DType::F16,
            &model(KvCacheLayout::Standard, 1, 64),
            16
        ),
        Err(CacheError::Kvarn(KvarnLayoutError::BlockSize {
            block_size: 16
        }))
    );
    let endless = model(KvCacheLayout::Standard, 2, usize::MAX);
    assert_eq!(
        PagedCacheType::TurboQuant().bytes_per_block_all_layers(DType::F16, &endless, usize::MAX),
        Err(CacheError::Turbo(TurboLayoutError::HeadDimNotPowerOfTwo {
            head_dim: usize::MAX
        }))
    );
    let wide = model(
        KvCacheLayout::Mla {
            kv_lora_rank: usize::MAX,
            kpe_head_dim: usize::MAX,
        },
        2,
        64,
    );
    assert_eq!(
        PagedCacheType::TurboQuant().bytes_per_block_all_layers(DType::F16, &wide, usize::MAX),
        Err(CacheError::MlaUnsupported)
    );
}

#[test]
fn storage_has_the_shapes_of_its_type() {
    let plain = model(KvCacheLayout::Standard, 2, 64);
    let engine = engine_on(&plain, &config(PagedCacheType::Auto(), 16), 2)
        .expect("plain storage");
    assert!(!engine.has_decoded_kv_cache());
    assert_eq!(engine.gpu_cache.len(), 2);
    assert_eq!(engine.gpu_cache[0].dtype, DType::F16);
    assert_eq!(
        calculate_key_block_shape(heads(2, 64), DType::F16, 16),
        (2, 8, 16, 8)
    );
    assert_eq!(calculate_value_block_shape(heads(2, 64), 16), (2, 64, 16));
    assert_eq!(engine.gpu_cache[0].key_dims, vec![3, 2, 8, 16, 8]);
    assert_eq!(engine.gpu_cache[0].value_dims, vec![3, 2, 64, 16]);

    let turbo = engine_on(&plain, &config(PagedCacheType::TurboQuant(), 16), 1)
    .expect("TurboQuant storage");
    assert_eq!(turbo.gpu_cache.len(), 1);
    assert_eq!(turbo.gpu_cache[0].key_dims, vec![3, 2, 16, 40]);
    assert_eq!(turbo.gpu_cache[0].dtype, DType::U8);
    assert!(turbo.gpu_cache[0].zeroed);

    let kvarn = engine_on(&plain, &config(PagedCacheType::KVarN(), 128), 2)
        .expect("KVarN storage");
    assert_eq!(kvarn.gpu_cache[1].key_dims, vec![3, 2, 4609]);
    assert_eq!(kvarn.gpu_cache[1].value_dims, vec![3, 2, 2689]);
}

#[test]
fn storage_takes_what_its_blocks_cost() {
    let kinds = [
        (PagedCacheType::Auto(), 16),
        (PagedCacheType::F8E4M3(), 16),
        (PagedCacheType::TurboQuant(), 16),
        (PagedCacheType::KVarN(), 128),
    ];
    let layouts = [
        KvCacheLayout::Standard,
        KvCacheLayout::Mla {
            kv_lora_rank: 5,
            kpe_head_dim: 7,
        },
    ];
    for layout in layouts {
        let heads = model(layout, 2, 64);
        for (kind, block_size) in kinds {
            let settings = config(kind, block_size);
            let Ok(cost) = kind.bytes_per_block_all_layers(DType::F16, &heads, block_size) else {
                assert!(engine_on(&heads, &settings, 2).is_err());
                continue;
            };
            let engine = engine_on(&heads, &settings, 2).expect("storage");
            let bytes: usize = engine
                .gpu_cache
                .iter()
                .map(|layer| {
                    let elements = layer.key_dims.iter().product::<usize>()
                        + layer.value_dims.iter().product::<usize>();
                    elements * layer.dtype.size_in_bytes()
                })
                .sum();
            assert_eq!(bytes, settings.num_gpu_blocks * cost);
        }
    }
    let plain = model(KvCacheLayout::Standard, 1, 64);
    assert_eq!(
        PagedCacheType::Auto().bytes_per_block_all_layers(DType::F16, &plain, 16),
        Ok(16 * 2 * (64 + 64) * 2)
    );
}

#[test]
fn decoded_blocks_are_kept_for_the_cached_type() {
    let plain = model(KvCacheLayout::Standard, 2, 64);
    let kind = PagedCacheType::TurboQuantCached {
        decoded_cache_mb: 1,
    };
    let engine = engine_on(&plain, &config(kind, 16), 2).expect("cached");
    assert!(engine.has_decoded_kv_cache());
    let mut decoded = engine.decoded_gpu_cache.expect("decoded blocks");
    assert_eq!(decoded.len(), 2);
    assert_eq!(decoded[0].num_slots(), 64);
    assert_eq!(decoded[0].key_dims(), vec![64, 2, 16, 64]);
    assert_eq!(decoded[0].value_dims(), vec![64, 2, 16, 64]);
    decoded[0].physical_to_slot.insert(5, 1);
    decoded[0].slot_to_physical[1] = Some(5);
    decoded[0].clock = 7;
    decoded[0].clear_mapping();
    assert!(decoded[0].physical_to_slot.is_empty());
    assert!(decoded[0].slot_to_physical.iter().all(|slot| slot.is_none()));

    let hnd = model(KvCacheLayout::FlashInferHnd, 1, 64);
    assert!(matches!(
        engine_on(&hnd, &config(kind, 16), 1),
        Err(CacheError::DecodedLayout)
    ));
}

#[test]
fn kernels_number_the_element_types() {
    assert_eq!(dtype_code(DType::F16), Some(0));
    assert_eq!(dtype_code(DType::BF16), Some(1));
    assert_eq!(dtype_code(DType::F32), Some(2));
    assert_eq!(dtype_code(DType::U8), None);
    assert_eq!(cache_dtype_code(DType::F8E4M3), Some(3));
    assert_eq!(cache_dtype_code(DType::U8), None);
    assert_eq!(DType::I64.size_in_bytes(), 8);
    assert_eq!(DType::F8E4M3.size_in_bytes(), 1);
}

#[test]
fn layers_lie_on_their_devices() {
    let gpu = DeviceLocation::Cuda { gpu_id: 1 };
    let kind = PagedCacheType::TurboQuantCached {
        decoded_cache_mb: 1,
    };
    let engine = CacheEngine::new(
        &model(KvCacheLayout::Standard, 3, 64),
        &config(kind, 16),
        DType::F16,
        DeviceLocation::Cpu,
        &vec![Some(gpu), None],
    )
    .unwrap();
    let places: Vec<_> = engine.gpu_cache.iter().map(|layer| layer.device).collect();
    assert_eq!(places, vec![gpu, DeviceLocation::Cpu]);
    let decoded = engine.decoded_gpu_cache.unwrap();
    let places: Vec<_> = decoded.iter().map(|layer| layer.device).collect();
    assert_eq!(places, vec![gpu, DeviceLocation::Cpu]);
}
