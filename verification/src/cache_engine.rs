//! Paged key and value caches: their types, their sizes and how they are allocated.
use crate::arith::is_power_of_two;
use crate::dtype::DType;
use crate::kvarn::layout::{
    key_record_bytes, key_record_len, shape_fault, value_record_bytes, value_record_len,
    KvarnLayoutError,
};
use crate::tensor::{element_count, DeviceLocation};
use crate::text::{
    chars_from, chars_of, contains_text, has_part, parse_usize, parsed_usize, part_stands_at,
    same_text, stands_at,
};
use crate::turboquant::layout::{row_bytes, row_len, TurboLayoutError};
use crate::turboquant::rows::rows_are_countable;
use std::collections::HashMap;
use std::str::FromStr;
use vstd::prelude::*;
use vstd::string::StringExecFns;

verus! {

broadcast use vstd::std_specs::hash::group_hash_axioms;

/// How the keys and values of a paged cache are stored.
#[derive(Clone, Copy, Debug, PartialEq, Eq, Structural)]
pub enum PagedCacheType {
    /// As the activations.
    Auto(),
    /// As 8-bit floats.
    F8E4M3(),
    /// As TurboQuant rows.
    TurboQuant(),
    /// As TurboQuant rows, with a cache of decoded blocks beside them.
    TurboQuantCached { decoded_cache_mb: usize },
    /// As KVarN records.
    KVarN(),
}

/// How a model lays out its caches.
#[derive(Clone, Copy, Debug, PartialEq, Eq, Structural)]
pub enum KvCacheLayout {
    Standard,
    StandardNoFlashInfer,
    FlashInferHnd,
    /// One compressed vector and one positional key per token.
    Mla { kv_lora_rank: usize, kpe_head_dim: usize },
}

/// The heads of one layer.
#[derive(Clone, Copy, Debug, PartialEq, Eq, Structural)]
pub struct LayerHeads {
    pub num_kv_heads: usize,
    pub k_head_dim: usize,
    pub v_head_dim: usize,
}

/// What the caches of a model depend on.
pub struct ModelHeads {
    pub layout: KvCacheLayout,
    pub layers: Vec<LayerHeads>,
}

/// How many blocks of which kind a cache has.
#[derive(Clone, Debug)]
pub struct CacheConfig {
    pub block_size: usize,
    pub num_gpu_blocks: usize,
    pub cache_type: PagedCacheType,
    pub kv_cache_group_ids: Vec<u32>,
}

/// Why a cache cannot be had.
#[derive(Clone, Copy, Debug, PartialEq, Eq, Structural)]
pub enum CacheError {
    /// The cache type has no form for compressed vectors.
    MlaUnsupported,
    /// A layer has no TurboQuant rows.
    Turbo(TurboLayoutError),
    /// A layer has no KVarN records.
    Kvarn(KvarnLayoutError),
    /// Decoded blocks are kept for the standard layout only.
    DecodedLayout,
}

impl Default for PagedCacheType {
    fn default() -> (cache_type: Self)
        ensures
            cache_type == PagedCacheType::Auto(),
    {
        PagedCacheType::Auto()
    }
}

/// The name before the size of a cache of decoded blocks.
pub open spec fn cached_prefix() -> Seq<char> {
    "turboquant_cached:"@
}

/// The cache type that a text names, if it names one.
///
/// Any text that contains `turboquant_cached:` names that type. The megabytes are what follows
/// if the text starts with it and a number follows, and 512 otherwise.
pub open spec fn named_cache_type(text: Seq<char>) -> Option<PagedCacheType> {
    if text == "auto"@ {
        Some(PagedCacheType::Auto())
    } else if text == "f8e4m3"@ {
        Some(PagedCacheType::F8E4M3())
    } else if text == "turboquant"@ || text == "tq"@ {
        Some(PagedCacheType::TurboQuant())
    } else if text == "kvarn"@ || text == "kvarn_k4v2_g128"@ {
        Some(PagedCacheType::KVarN())
    } else if contains_text(text, cached_prefix()) {
        let rest = text.skip(cached_prefix().len() as int);
        let decoded_cache_mb = if stands_at(text, cached_prefix(), 0) && parsed_usize(
            rest,
        ) is Some {
            parsed_usize(rest)->0
        } else {
            512
        };
        Some(PagedCacheType::TurboQuantCached { decoded_cache_mb })
    } else {
        None
    }
}

/// What is said of a text that names no cache type.
pub open spec fn unknown_cache_type(text: Seq<char>) -> Seq<char> {
    "Unexpected `PagedCacheType`, got `"@ + text
        + "` but expected `auto`, `f8e4m3`, `turboquant`, or `kvarn`."@
}

impl FromStr for PagedCacheType {
    type Err = String;

    fn from_str(s: &str) -> (named: Result<Self, String>)
        ensures
            match named {
                Ok(cache_type) => named_cache_type(s@) == Some(cache_type),
                Err(message) => named_cache_type(s@) is None && message@ == unknown_cache_type(s@),
            },
    {
        PagedCacheType::parse(s)
    }
}

impl PagedCacheType {
    /// The cache type that a text names; a message if it names none.
    pub fn parse(s: &str) -> (named: Result<Self, String>)
        ensures
            match named {
                Ok(cache_type) => named_cache_type(s@) == Some(cache_type),
                Err(message) => named_cache_type(s@) is None && message@ == unknown_cache_type(s@),
            },
    {
        if same_text(s, "auto") {
            return Ok(PagedCacheType::Auto());
        }
        if same_text(s, "f8e4m3") {
            return Ok(PagedCacheType::F8E4M3());
        }
        if same_text(s, "turboquant") || same_text(s, "tq") {
            return Ok(PagedCacheType::TurboQuant());
        }
        if same_text(s, "kvarn") || same_text(s, "kvarn_k4v2_g128") {
            return Ok(PagedCacheType::KVarN());
        }
        let chars: Vec<char> = chars_of(s);
        let prefix: Vec<char> = chars_of("turboquant_cached:");
        if has_part(&chars, &prefix) {
            let decoded_cache_mb: usize = if part_stands_at(&chars, &prefix, 0) {
                let rest: Vec<char> = chars_from(&chars, prefix.len());
                match parse_usize(&rest) {
                    Some(megabytes) => megabytes,
                    None => 512,
                }
            } else {
                512
            };
            return Ok(PagedCacheType::TurboQuantCached { decoded_cache_mb });
        }
        let mut message: String = "Unexpected `PagedCacheType`, got `".to_owned();
        message.append(s);
        message.append("` but expected `auto`, `f8e4m3`, `turboquant`, or `kvarn`.");
        Err(message)
    }

    /// The element type of the storage.
    pub open spec fn storage_dtype(self, act_dtype: DType) -> DType {
        match self {
            PagedCacheType::F8E4M3() => DType::F8E4M3,
            PagedCacheType::Auto() => act_dtype,
            _ => DType::U8,
        }
    }

    /// The element type of the storage.
    pub fn to_dtype(&self, act_dtype: DType) -> (dtype: Result<DType, CacheError>)
        ensures
            dtype == Ok::<DType, CacheError>(self.storage_dtype(act_dtype)),
    {
        match self {
            PagedCacheType::F8E4M3() => Ok(DType::F8E4M3),
            PagedCacheType::Auto() => Ok(act_dtype),
            _ => Ok(DType::U8),
        }
    }

    /// Whether the storage holds TurboQuant rows.
    pub fn is_turboquant(&self) -> (yes: bool)
        ensures
            yes == (self is TurboQuant || self is TurboQuantCached),
    {
        match self {
            PagedCacheType::TurboQuant() => true,
            PagedCacheType::TurboQuantCached { .. } => true,
            _ => false,
        }
    }

    /// The megabytes for decoded blocks, if any are kept.
    pub fn turboquant_cache_decoded_size(&self) -> (megabytes: Option<usize>)
        ensures
            megabytes == match *self {
                PagedCacheType::TurboQuantCached { decoded_cache_mb } => Some(decoded_cache_mb),
                _ => None,
            },
    {
        match self {
            PagedCacheType::TurboQuantCached { decoded_cache_mb } => Some(*decoded_cache_mb),
            _ => None,
        }
    }

    /// Whether the storage holds KVarN records.
    pub fn is_kvarn(&self) -> (yes: bool)
        ensures
            yes == (self is KVarN),
    {
        match self {
            PagedCacheType::KVarN() => true,
            _ => false,
        }
    }

    /// What one layer takes: bytes per token for TurboQuant rows, bytes per block for KVarN
    /// records, elements per token otherwise.
    pub open spec fn layer_cost(self, layer: LayerHeads, block_size: int) -> int {
        let heads = layer.num_kv_heads as int;
        let k = layer.k_head_dim as int;
        let v = layer.v_head_dim as int;
        match self {
            PagedCacheType::TurboQuant() | PagedCacheType::TurboQuantCached { .. } => heads * (
            row_len(k) + row_len(v)),
            PagedCacheType::KVarN() => heads * (key_record_len(k, block_size) + value_record_len(
                v,
                block_size,
            )),
            _ => heads * (k + v),
        }
    }

    /// What the first `count` layers take.
    pub open spec fn layers_cost(
        self,
        layers: Seq<LayerHeads>,
        count: int,
        block_size: int,
    ) -> int
        decreases count,
    {
        if count <= 0 {
            0
        } else {
            self.layers_cost(layers, count - 1, block_size) + self.layer_cost(
                layers[count - 1],
                block_size,
            )
        }
    }

    /// Bytes of one block over all layers.
    pub open spec fn block_bytes(self, act_dtype: DType, model: ModelHeads, block_size: int) -> int {
        let size = self.storage_dtype(act_dtype).spec_size_in_bytes() as int;
        let count = model.layers.len() as int;
        match model.layout {
            KvCacheLayout::Mla { kv_lora_rank, kpe_head_dim } => count * block_size * (kv_lora_rank
                + kpe_head_dim) * size,
            _ => {
                let cost = self.layers_cost(model.layers@, count, block_size);
                match self {
                    PagedCacheType::TurboQuant() | PagedCacheType::TurboQuantCached { .. } => cost
                        * block_size,
                    PagedCacheType::KVarN() => cost,
                    _ => cost * block_size * size,
                }
            },
        }
    }

    /// What keeps a layer from having such a cache.
    pub open spec fn layer_fault(self, layer: LayerHeads, block_size: usize) -> Option<CacheError> {
        let not_power = |dim: usize|
            CacheError::Turbo(TurboLayoutError::HeadDimNotPowerOfTwo { head_dim: dim });
        match self {
            PagedCacheType::TurboQuant() | PagedCacheType::TurboQuantCached { .. } => {
                if !is_power_of_two(layer.k_head_dim as nat) {
                    Some(not_power(layer.k_head_dim))
                } else if !is_power_of_two(layer.v_head_dim as nat) {
                    Some(not_power(layer.v_head_dim))
                } else {
                    None
                }
            },
            PagedCacheType::KVarN() => match shape_fault(layer.k_head_dim, block_size) {
                Some(fault) => Some(CacheError::Kvarn(fault)),
                None => match shape_fault(layer.v_head_dim, block_size) {
                    Some(fault) => Some(CacheError::Kvarn(fault)),
                    None => None,
                },
            },
            _ => None,
        }
    }

    /// What keeps a model from having such caches: its layout, else its first layer that cannot.
    pub open spec fn model_fault(
        self,
        layout: KvCacheLayout,
        layers: Seq<LayerHeads>,
        block_size: usize,
    ) -> Option<CacheError>
        decreases layers.len(),
    {
        if layout is Mla {
            match self {
                PagedCacheType::Auto() | PagedCacheType::F8E4M3() => None,
                _ => Some(CacheError::MlaUnsupported),
            }
        } else if layers.len() == 0 {
            None
        } else {
            match self.model_fault(layout, layers.drop_last(), block_size) {
                Some(fault) => Some(fault),
                None => self.layer_fault(layers.last(), block_size),
            }
        }
    }

    /// Whether the size of each row and record of a layer fits in a `usize`, up to the first that
    /// the layer cannot have.
    pub open spec fn rows_are_countable(self, layer: LayerHeads, block_size: usize) -> bool {
        let k = layer.k_head_dim;
        let v = layer.v_head_dim;
        match self {
            PagedCacheType::TurboQuant() | PagedCacheType::TurboQuantCached { .. } => {
                rows_are_countable(k, v)
            },
            PagedCacheType::KVarN() => shape_fault(k, block_size) is None ==> {
                &&& key_record_len(k as int, block_size as int) <= usize::MAX
                &&& shape_fault(v, block_size) is None ==> value_record_len(
                    v as int,
                    block_size as int,
                ) <= usize::MAX
            },
            _ => true,
        }
    }

    /// Whether keys are stored in pieces of 16 bytes.
    pub open spec fn splits_keys(self, layout: KvCacheLayout) -> bool {
        (self is Auto || self is F8E4M3) && layout !is Mla
    }

    /// Whether the rows and records of a layer can be counted in a `usize`.
    pub open spec fn layer_is_countable(self, layer: LayerHeads, block_size: int) -> bool {
        &&& 0 <= self.layer_cost(layer, block_size) <= usize::MAX
        &&& match self {
            PagedCacheType::TurboQuant() | PagedCacheType::TurboQuantCached { .. } => row_len(
                layer.k_head_dim as int,
            ) + row_len(layer.v_head_dim as int) <= usize::MAX,
            PagedCacheType::KVarN() => key_record_len(layer.k_head_dim as int, block_size)
                + value_record_len(layer.v_head_dim as int, block_size) <= usize::MAX,
            _ => layer.k_head_dim + layer.v_head_dim <= usize::MAX,
        }
    }

    /// Whether every layer of a model can be counted in a `usize`, and all of them together, up
    /// to the first that cannot have such a cache.
    pub open spec fn model_is_countable(
        self,
        act_dtype: DType,
        model: ModelHeads,
        block_size: usize,
    ) -> bool {
        let layers = model.layers@;
        let count = layers.len() as int;
        let cost = self.layers_cost(layers, count, block_size as int);
        &&& model.layout !is Mla ==> forall|i: int|
            0 <= i < count && self.model_fault(model.layout, layers.take(i), block_size) is None
                ==> {
                &&& self.rows_are_countable(#[trigger] layers[i], block_size)
                &&& self.layer_fault(layers[i], block_size) is None ==> {
                    &&& self.layer_is_countable(layers[i], block_size as int)
                    &&& self.layers_cost(layers, i + 1, block_size as int) <= usize::MAX
                }
            }
        &&& self.model_fault(model.layout, layers, block_size) is None ==> {
            &&& match model.layout {
                KvCacheLayout::Mla { kv_lora_rank, kpe_head_dim } => {
                    &&& count * block_size <= usize::MAX
                    &&& kv_lora_rank + kpe_head_dim <= usize::MAX
                    &&& count * block_size * (kv_lora_rank + kpe_head_dim) <= usize::MAX
                },
                _ => self !is KVarN ==> cost * block_size <= usize::MAX,
            }
            &&& self.block_bytes(act_dtype, model, block_size as int) <= usize::MAX
        }
    }

    /// What one layer takes, or what keeps it from having such a cache.
    fn cost_of_layer(&self, layer: LayerHeads, block_size: usize) -> (cost: Result<
        usize,
        CacheError,
    >)
        requires
            self.rows_are_countable(layer, block_size),
            self.layer_fault(layer, block_size) is None ==> self.layer_is_countable(
                layer,
                block_size as int,
            ),
        ensures
            match cost {
                Ok(n) => self.layer_fault(layer, block_size) is None && n == self.layer_cost(
                    layer,
                    block_size as int,
                ),
                Err(e) => self.layer_fault(layer, block_size) == Some(e),
            },
    {
        let heads: usize = layer.num_kv_heads;
        match self {
            PagedCacheType::TurboQuant() | PagedCacheType::TurboQuantCached { .. } => {
                let key: usize = match row_bytes(layer.k_head_dim) {
                    Ok(bytes) => bytes,
                    Err(fault) => {
                        return Err(CacheError::Turbo(fault));
                    },
                };
                let value: usize = match row_bytes(layer.v_head_dim) {
                    Ok(bytes) => bytes,
                    Err(fault) => {
                        return Err(CacheError::Turbo(fault));
                    },
                };
                Ok(heads * (key + value))
            },
            PagedCacheType::KVarN() => {
                let key: usize = match key_record_bytes(layer.k_head_dim, block_size) {
                    Ok(bytes) => bytes,
                    Err(fault) => {
                        return Err(CacheError::Kvarn(fault));
                    },
                };
                let value: usize = match value_record_bytes(layer.v_head_dim, block_size) {
                    Ok(bytes) => bytes,
                    Err(fault) => {
                        return Err(CacheError::Kvarn(fault));
                    },
                };
                Ok(heads * (key + value))
            },
            _ => Ok(heads * (layer.k_head_dim + layer.v_head_dim)),
        }
    }

    /// A prefix of the layers that has a fault gives the fault of all of them.
    proof fn first_fault_stays(
        self,
        layout: KvCacheLayout,
        layers: Seq<LayerHeads>,
        count: int,
        block_size: usize,
    )
        requires
            0 <= count <= layers.len(),
            layout !is Mla,
            self.model_fault(layout, layers.take(count), block_size) is Some,
        ensures
            self.model_fault(layout, layers, block_size) == self.model_fault(
                layout,
                layers.take(count),
                block_size,
            ),
        decreases layers.len() - count,
    {
        if count < layers.len() {
            assert(layers.take(count + 1).drop_last() =~= layers.take(count));
            self.first_fault_stays(layout, layers, count + 1, block_size);
        } else {
            assert(layers.take(count) =~= layers);
        }
    }

    /// Where a model has no fault, none of its layers has, nor those before it.
    proof fn no_fault_before(
        self,
        layout: KvCacheLayout,
        layers: Seq<LayerHeads>,
        index: int,
        block_size: usize,
    )
        requires
            0 <= index < layers.len(),
            layout !is Mla,
            self.model_fault(layout, layers, block_size) is None,
        ensures
            self.model_fault(layout, layers.take(index), block_size) is None,
            self.layer_fault(layers[index], block_size) is None,
    {
        if self.model_fault(layout, layers.take(index + 1), block_size) is Some {
            self.first_fault_stays(layout, layers, index + 1, block_size);
        }
        assert(layers.take(index + 1).drop_last() =~= layers.take(index));
    }

    /// Bytes of one block over all layers.
    pub fn bytes_per_block_all_layers(
        &self,
        act_dtype: DType,
        model: &ModelHeads,
        block_size: usize,
    ) -> (bytes: Result<usize, CacheError>)
        requires
            self.model_is_countable(act_dtype, *model, block_size),
        ensures
            match bytes {
                Ok(n) => {
                    &&& self.model_fault(model.layout, model.layers@, block_size) is None
                    &&& n == self.block_bytes(act_dtype, *model, block_size as int)
                },
                Err(e) => self.model_fault(model.layout, model.layers@, block_size) == Some(e),
            },
    {
        let size: usize = self.to_dtype(act_dtype)?.size_in_bytes();
        let count: usize = model.layers.len();
        match model.layout {
            KvCacheLayout::Mla { kv_lora_rank, kpe_head_dim } => {
                if self.is_turboquant() || self.is_kvarn() {
                    return Err(CacheError::MlaUnsupported);
                }
                return Ok(count * block_size * (kv_lora_rank + kpe_head_dim) * size);
            },
            _ => {},
        }
        let mut cost: usize = 0;
        let mut i: usize = 0;
        while i < count
            invariant
                i <= count,
                count == model.layers.len(),
                model.layout !is Mla,
                self.model_is_countable(act_dtype, *model, block_size),
                cost == self.layers_cost(model.layers@, i as int, block_size as int),
                self.model_fault(model.layout, model.layers@.take(i as int), block_size) is None,
            decreases count - i,
        {
            assert(self.rows_are_countable(model.layers@[i as int], block_size));
            assert(model.layers@.take(i + 1).drop_last() =~= model.layers@.take(i as int));
            let layer_cost: usize = match self.cost_of_layer(model.layers[i], block_size) {
                Ok(layer_cost) => layer_cost,
                Err(e) => {
                    proof {
                        self.first_fault_stays(model.layout, model.layers@, i + 1, block_size);
                    }
                    return Err(e);
                },
            };
            cost = cost + layer_cost;
            i += 1;
        }
        assert(model.layers@.take(i as int) =~= model.layers@);
        if self.is_kvarn() {
            return Ok(cost);
        }
        if self.is_turboquant() {
            return Ok(cost * block_size);
        }
        Ok(cost * block_size * size)
    }
}

/// The storage of one layer.
#[derive(Clone, Debug)]
pub struct LayerStorage {
    pub key_dims: Vec<usize>,
    pub value_dims: Vec<usize>,
    pub dtype: DType,
    /// Whether the storage starts out as zeros; else it is left as it comes.
    pub zeroed: bool,
    /// The device that the storage lies on.
    pub device: DeviceLocation,
}

/// The shape of the keys of one layer.
///
/// Plain keys are split into pieces of 16 bytes: `[blocks, heads, dims / x, block, x]`.
pub open spec fn key_dims(
    cache_type: PagedCacheType,
    layout: KvCacheLayout,
    layer: LayerHeads,
    blocks: usize,
    block_size: usize,
    dtype: DType,
) -> Seq<usize> {
    let heads = layer.num_kv_heads;
    let x = (16int / dtype.spec_size_in_bytes() as int) as usize;
    match cache_type {
        PagedCacheType::TurboQuant() | PagedCacheType::TurboQuantCached { .. } => seq![
            blocks,
            heads,
            block_size,
            row_len(layer.k_head_dim as int) as usize,
        ],
        PagedCacheType::KVarN() => seq![
            blocks,
            heads,
            key_record_len(layer.k_head_dim as int, block_size as int) as usize,
        ],
        _ => match layout {
            KvCacheLayout::Mla { kv_lora_rank, .. } => seq![blocks, block_size, kv_lora_rank],
            _ => seq![blocks, heads, layer.k_head_dim / x, block_size, x],
        },
    }
}

/// The shape of the values of one layer.
pub open spec fn value_dims(
    cache_type: PagedCacheType,
    layout: KvCacheLayout,
    layer: LayerHeads,
    blocks: usize,
    block_size: usize,
) -> Seq<usize> {
    let heads = layer.num_kv_heads;
    match cache_type {
        PagedCacheType::TurboQuant() | PagedCacheType::TurboQuantCached { .. } => seq![
            blocks,
            heads,
            block_size,
            row_len(layer.v_head_dim as int) as usize,
        ],
        PagedCacheType::KVarN() => seq![
            blocks,
            heads,
            value_record_len(layer.v_head_dim as int, block_size as int) as usize,
        ],
        _ => match layout {
            KvCacheLayout::Mla { kpe_head_dim, .. } => seq![blocks, block_size, kpe_head_dim],
            _ => seq![blocks, heads, layer.v_head_dim, block_size],
        },
    }
}

impl LayerStorage {
    /// Whether this is the storage of a layer.
    pub open spec fn is_for(
        &self,
        config: CacheConfig,
        layout: KvCacheLayout,
        layer: LayerHeads,
        dtype: DType,
        device: DeviceLocation,
    ) -> bool {
        let packed = config.cache_type is TurboQuant || config.cache_type is TurboQuantCached
            || config.cache_type is KVarN;
        &&& self.key_dims@ == key_dims(
            config.cache_type,
            layout,
            layer,
            config.num_gpu_blocks,
            config.block_size,
            dtype,
        )
        &&& self.value_dims@ == value_dims(
            config.cache_type,
            layout,
            layer,
            config.num_gpu_blocks,
            config.block_size,
        )
        &&& self.dtype == if packed {
            DType::U8
        } else {
            dtype
        }
        &&& self.zeroed == packed
        &&& self.device == device
    }
}

/// The shape of the plain keys of a layer, without the blocks.
pub fn calculate_key_block_shape(layer: LayerHeads, dtype: DType, block_size: usize) -> (shape: (
    usize,
    usize,
    usize,
    usize,
))
    requires
        dtype.spec_size_in_bytes() != 0,
    ensures
        shape.0 == layer.num_kv_heads,
        shape.1 as int == layer.k_head_dim as int / shape.3 as int,
        shape.2 == block_size,
        shape.3 == 16int / dtype.spec_size_in_bytes() as int,
        shape.3 >= 2,
{
    let element_size: usize = dtype.size_in_bytes();
    let x: usize = 16 / element_size;
    (layer.num_kv_heads, layer.k_head_dim / x, block_size, x)
}

/// The shape of the plain values of a layer, without the blocks.
pub fn calculate_value_block_shape(layer: LayerHeads, block_size: usize) -> (shape: (
    usize,
    usize,
    usize,
))
    ensures
        shape == (layer.num_kv_heads, layer.v_head_dim, block_size),
{
    (layer.num_kv_heads, layer.v_head_dim, block_size)
}

/// The storage of one layer, or what keeps the layer from having any.
fn layer_storage(
    config: &CacheConfig,
    layout: KvCacheLayout,
    layer: LayerHeads,
    dtype: DType,
    device: DeviceLocation,
) -> (storage: Result<LayerStorage, CacheError>)
    requires
        layout !is Mla ==> config.cache_type.rows_are_countable(layer, config.block_size),
        config.cache_type.splits_keys(layout) ==> dtype.spec_size_in_bytes() != 0,
    ensures
        match storage {
            Ok(s) => {
                &&& config.cache_type.model_fault(layout, seq![layer], config.block_size) is None
                &&& s.is_for(*config, layout, layer, dtype, device)
            },
            Err(e) => config.cache_type.model_fault(layout, seq![layer], config.block_size)
                == Some(e),
        },
{
    proof {
        assert(seq![layer].drop_last() =~= Seq::<LayerHeads>::empty());
        reveal_with_fuel(PagedCacheType::model_fault, 2);
    }
    let blocks: usize = config.num_gpu_blocks;
    let block_size: usize = config.block_size;
    let heads: usize = layer.num_kv_heads;
    if let KvCacheLayout::Mla { kv_lora_rank, kpe_head_dim } = layout {
        if config.cache_type.is_turboquant() || config.cache_type.is_kvarn() {
            return Err(CacheError::MlaUnsupported);
        }
        let key: Vec<usize> = vec![blocks, block_size, kv_lora_rank];
        let value: Vec<usize> = vec![blocks, block_size, kpe_head_dim];
        return Ok(
            LayerStorage { key_dims: key, value_dims: value, dtype, zeroed: false, device },
        );
    }
    match config.cache_type {
        PagedCacheType::TurboQuant() | PagedCacheType::TurboQuantCached { .. } => {
            let key_row: usize = match row_bytes(layer.k_head_dim) {
                Ok(bytes) => bytes,
                Err(fault) => {
                    return Err(CacheError::Turbo(fault));
                },
            };
            let value_row: usize = match row_bytes(layer.v_head_dim) {
                Ok(bytes) => bytes,
                Err(fault) => {
                    return Err(CacheError::Turbo(fault));
                },
            };
            let key: Vec<usize> = vec![blocks, heads, block_size, key_row];
            let value: Vec<usize> = vec![blocks, heads, block_size, value_row];
            Ok(
                LayerStorage {
                    key_dims: key,
                    value_dims: value,
                    dtype: DType::U8,
                    zeroed: true,
                    device,
                },
            )
        },
        PagedCacheType::KVarN() => {
            let key_record: usize = match key_record_bytes(layer.k_head_dim, block_size) {
                Ok(bytes) => bytes,
                Err(fault) => {
                    return Err(CacheError::Kvarn(fault));
                },
            };
            let value_record: usize = match value_record_bytes(layer.v_head_dim, block_size) {
                Ok(bytes) => bytes,
                Err(fault) => {
                    return Err(CacheError::Kvarn(fault));
                },
            };
            let key: Vec<usize> = vec![blocks, heads, key_record];
            let value: Vec<usize> = vec![blocks, heads, value_record];
            Ok(
                LayerStorage {
                    key_dims: key,
                    value_dims: value,
                    dtype: DType::U8,
                    zeroed: true,
                    device,
                },
            )
        },
        _ => {
            let k = calculate_key_block_shape(layer, dtype, block_size);
            let v = calculate_value_block_shape(layer, block_size);
            let key: Vec<usize> = vec![blocks, k.0, k.1, k.2, k.3];
            let value: Vec<usize> = vec![blocks, v.0, v.1, v.2];
            Ok(LayerStorage { key_dims: key, value_dims: value, dtype, zeroed: false, device })
        },
    }
}

/// How many layers get storage: those that the model has and that have an entry for a device.
pub open spec fn stored_layers(model: ModelHeads, num_devices: usize) -> int {
    if num_devices <= model.layers.len() {
        num_devices as int
    } else {
        model.layers.len() as int
    }
}

/// The device of a layer: its own if it has one, else the device of the model.
pub open spec fn device_of(
    device: DeviceLocation,
    layer_devices: Seq<Option<DeviceLocation>>,
    layer: int,
) -> DeviceLocation {
    match layer_devices[layer] {
        Some(own) => own,
        None => device,
    }
}

fn pick_device(
    device: DeviceLocation,
    layer_devices: &Vec<Option<DeviceLocation>>,
    layer: usize,
) -> (picked: DeviceLocation)
    requires
        layer < layer_devices.len(),
    ensures
        picked == device_of(device, layer_devices@, layer as int),
{
    match layer_devices[layer] {
        Some(own) => own,
        None => device,
    }
}

/// What keeps the first `count` layers from having storage.
pub open spec fn storage_fault(
    config: CacheConfig,
    model: ModelHeads,
    count: int,
) -> Option<CacheError> {
    if count <= 0 {
        None
    } else {
        config.cache_type.model_fault(model.layout, model.layers@.take(count), config.block_size)
    }
}

/// Whether the sizes of the storage of each layer with a device can be told, up to the first that
/// cannot have any: its rows can be counted, and keys that are stored in pieces have elements of
/// whole bytes.
pub open spec fn can_be_stored(
    config: CacheConfig,
    model: ModelHeads,
    dtype: DType,
    num_devices: usize,
) -> bool {
    let count = stored_layers(model, num_devices);
    &&& count > 0 && config.cache_type.splits_keys(model.layout) ==> dtype.spec_size_in_bytes()
        != 0
    &&& model.layout !is Mla ==> forall|i: int|
        0 <= i < count && storage_fault(config, model, i) is None
            ==> config.cache_type.rows_are_countable(
            #[trigger] model.layers@[i],
            config.block_size,
        )
}

/// The decoded blocks of one layer, and which of them stand for which blocks of the cache.
pub struct DecodedKVCache {
    /// The slot that a block was decoded into.
    pub physical_to_slot: HashMap<u32, usize>,
    /// The block that a slot holds.
    pub slot_to_physical: Vec<Option<u32>>,
    /// When a slot was last used.
    pub lru_clock: Vec<u64>,
    pub clock: u64,
    pub block_size: usize,
    pub num_kv_heads: usize,
    pub k_head_dim: usize,
    pub v_head_dim: usize,
    pub dtype: DType,
    /// The device that the decoded blocks lie on.
    pub device: DeviceLocation,
}

impl DecodedKVCache {
    /// The two directions of the mapping agree, and every slot has a time.
    pub open spec fn wf(&self) -> bool {
        &&& self.lru_clock.len() == self.slot_to_physical.len()
        &&& forall|block: u32| #[trigger]
            self.physical_to_slot@.contains_key(block) ==> self.physical_to_slot@[block]
                < self.slot_to_physical.len() && self.slot_to_physical@[self.physical_to_slot@[block] as int]
                == Some(block)
        &&& forall|slot: int|
            0 <= slot < self.slot_to_physical.len() ==> (#[trigger] self.slot_to_physical@[slot]
                matches Some(block) ==> self.physical_to_slot@.contains_key(block)
                && self.physical_to_slot@[block] == slot)
    }

    /// No slot holds a block, and the clock stands at zero.
    pub open spec fn is_clear(&self) -> bool {
        &&& self.physical_to_slot@ == Map::<u32, usize>::empty()
        &&& forall|i: int|
            0 <= i < self.slot_to_physical.len() ==> #[trigger] self.slot_to_physical@[i] == None::<
                u32,
            >
        &&& forall|i: int| 0 <= i < self.lru_clock.len() ==> #[trigger] self.lru_clock@[i] == 0
        &&& self.clock == 0
    }

    /// Whether this is the empty cache of a layer, with the layer's share of the megabytes.
    pub open spec fn is_new_for(
        &self,
        megabytes: usize,
        model: ModelHeads,
        index: int,
        block_size: usize,
        dtype: DType,
        device: DeviceLocation,
    ) -> bool {
        let layer = model.layers@[index];
        &&& self.wf()
        &&& self.is_clear()
        &&& self.slot_to_physical.len() == decoded_slots(
            megabytes as int,
            model.layers.len() as int,
            layer,
            block_size as int,
            dtype,
        )
        &&& self.block_size == block_size
        &&& self.num_kv_heads == layer.num_kv_heads
        &&& self.k_head_dim == layer.k_head_dim
        &&& self.v_head_dim == layer.v_head_dim
        &&& self.dtype == dtype
        &&& self.device == device
    }

    /// A cache with `slots` empty slots for the blocks of a layer.
    pub fn new(
        slots: usize,
        block_size: usize,
        layer: LayerHeads,
        dtype: DType,
        device: DeviceLocation,
    ) -> (cache: Self)
        ensures
            cache.wf(),
            cache.is_clear(),
            cache.slot_to_physical.len() == slots,
            cache.block_size == block_size,
            cache.num_kv_heads == layer.num_kv_heads,
            cache.k_head_dim == layer.k_head_dim,
            cache.v_head_dim == layer.v_head_dim,
            cache.dtype == dtype,
            cache.device == device,
    {
        DecodedKVCache {
            physical_to_slot: HashMap::new(),
            slot_to_physical: vec![None; slots],
            lru_clock: vec![0u64; slots],
            clock: 0,
            block_size,
            num_kv_heads: layer.num_kv_heads,
            k_head_dim: layer.k_head_dim,
            v_head_dim: layer.v_head_dim,
            dtype,
            device,
        }
    }

    /// The number of slots.
    pub fn num_slots(&self) -> (slots: usize)
        ensures
            slots == self.slot_to_physical.len(),
    {
        self.slot_to_physical.len()
    }

    /// The shape of the decoded keys.
    pub fn key_dims(&self) -> (dims: Vec<usize>)
        ensures
            dims@ == seq![
                self.slot_to_physical.len(),
                self.num_kv_heads,
                self.block_size,
                self.k_head_dim,
            ],
    {
        vec![self.slot_to_physical.len(), self.num_kv_heads, self.block_size, self.k_head_dim]
    }

    /// The shape of the decoded values.
    pub fn value_dims(&self) -> (dims: Vec<usize>)
        ensures
            dims@ == seq![
                self.slot_to_physical.len(),
                self.num_kv_heads,
                self.block_size,
                self.v_head_dim,
            ],
    {
        vec![self.slot_to_physical.len(), self.num_kv_heads, self.block_size, self.v_head_dim]
    }

    /// Forgets which slot holds which block.
    pub fn clear_mapping(&mut self)
        ensures
            final(self).is_clear(),
            final(self).slot_to_physical.len() == old(self).slot_to_physical.len(),
            final(self).lru_clock.len() == old(self).lru_clock.len(),
            old(self).wf() ==> final(self).wf(),
            final(self).block_size == old(self).block_size,
            final(self).num_kv_heads == old(self).num_kv_heads,
            final(self).k_head_dim == old(self).k_head_dim,
            final(self).v_head_dim == old(self).v_head_dim,
            final(self).dtype == old(self).dtype,
            final(self).device == old(self).device,
    {
        let slots: usize = self.slot_to_physical.len();
        let clocks: usize = self.lru_clock.len();
        self.physical_to_slot.clear();
        self.slot_to_physical = vec![None; slots];
        self.lru_clock = vec![0u64; clocks];
        self.clock = 0;
    }
}

/// Bytes of one decoded block of a layer.
pub open spec fn decoded_block_bytes(layer: LayerHeads, block_size: int, dtype: DType) -> int {
    block_size * layer.num_kv_heads * (layer.k_head_dim + layer.v_head_dim)
        * dtype.spec_size_in_bytes()
}

/// The number of decoded blocks of a layer: its share of the megabytes, and at least one.
pub open spec fn decoded_slots(
    megabytes: int,
    num_layers: int,
    layer: LayerHeads,
    block_size: int,
    dtype: DType,
) -> int {
    let share = megabytes * 1024 * 1024 / num_layers / decoded_block_bytes(layer, block_size, dtype);
    if share < 1 {
        1
    } else {
        share
    }
}

/// Whether the decoded blocks of a layer can be counted in a `usize`, and take room at all.
pub open spec fn decoded_is_countable(layer: LayerHeads, block_size: int, dtype: DType) -> bool {
    &&& block_size * layer.num_kv_heads <= usize::MAX
    &&& layer.k_head_dim + layer.v_head_dim <= usize::MAX
    &&& block_size * layer.num_kv_heads * (layer.k_head_dim + layer.v_head_dim) <= usize::MAX
    &&& 0 < decoded_block_bytes(layer, block_size, dtype) <= usize::MAX
}

/// Whether the decoded blocks of each layer with a device can be counted, if any are to be kept.
pub open spec fn can_be_decoded(
    config: CacheConfig,
    model: ModelHeads,
    dtype: DType,
    num_devices: usize,
) -> bool {
    match config.cache_type {
        PagedCacheType::TurboQuantCached { decoded_cache_mb } => model.layout is Standard ==> {
            &&& decoded_cache_mb * 1024 * 1024 <= usize::MAX
            &&& decoded_cache_mb != 0 ==> forall|i: int|
                0 <= i < stored_layers(model, num_devices) ==> decoded_is_countable(
                    #[trigger] model.layers@[i],
                    config.block_size as int,
                    dtype,
                )
        },
        _ => true,
    }
}

/// The storage of all caches of a model.
pub struct CacheEngine {
    /// The storage of each layer.
    pub gpu_cache: Vec<LayerStorage>,
    /// The decoded blocks of each layer, if any are kept.
    pub decoded_gpu_cache: Option<Vec<DecodedKVCache>>,
}

impl CacheEngine {
    /// The storage of each layer that `layer_devices` has an entry for: on the device of that
    /// entry, or on `device` if the entry is empty.
    pub fn allocate_gpu_cache(
        model: &ModelHeads,
        config: &CacheConfig,
        dtype: DType,
        device: DeviceLocation,
        layer_devices: &Vec<Option<DeviceLocation>>,
    ) -> (storage: Result<Vec<LayerStorage>, CacheError>)
        requires
            can_be_stored(*config, *model, dtype, layer_devices.len()),
        ensures
            match storage {
                Ok(layers) => {
                    &&& storage_fault(
                        *config,
                        *model,
                        stored_layers(*model, layer_devices.len()),
                    ) is None
                    &&& layers.len() == stored_layers(*model, layer_devices.len())
                    &&& forall|i: int|
                        0 <= i < layers.len() ==> (#[trigger] layers@[i]).is_for(
                            *config,
                            model.layout,
                            model.layers@[i],
                            dtype,
                            device_of(device, layer_devices@, i),
                        )
                    &&& model.layout matches KvCacheLayout::Mla { kv_lora_rank, kpe_head_dim }
                        ==> forall|i: int|
                        0 <= i < layers.len() ==> (#[trigger] layers@[i]).key_dims@ == seq![
                            config.num_gpu_blocks,
                            config.block_size,
                            kv_lora_rank,
                        ] && layers@[i].value_dims@ == seq![
                            config.num_gpu_blocks,
                            config.block_size,
                            kpe_head_dim,
                        ]
                },
                Err(e) => storage_fault(*config, *model, stored_layers(*model, layer_devices.len()))
                    == Some(e),
            },
    {
        let count: usize = if layer_devices.len() <= model.layers.len() {
            layer_devices.len()
        } else {
            model.layers.len()
        };
        let mut layers: Vec<LayerStorage> = Vec::new();
        let mut i: usize = 0;
        while i < count
            invariant
                i <= count,
                count == stored_layers(*model, layer_devices.len()),
                can_be_stored(*config, *model, dtype, layer_devices.len()),
                layers.len() == i,
                storage_fault(*config, *model, i as int) is None,
                forall|j: int|
                    0 <= j < i ==> (#[trigger] layers@[j]).is_for(
                        *config,
                        model.layout,
                        model.layers@[j],
                        dtype,
                        device_of(device, layer_devices@, j),
                    ),
            decreases count - i,
        {
            let ghost layer = model.layers@[i as int];
            proof {
                let ghost_layers = model.layers@;
                assert(ghost_layers.take(i + 1).drop_last() =~= ghost_layers.take(i as int));
                assert(ghost_layers.take(i + 1).last() == layer);
                assert(seq![layer].drop_last() =~= Seq::<LayerHeads>::empty());
                assert(ghost_layers.take(0) =~= Seq::<LayerHeads>::empty());
                reveal_with_fuel(PagedCacheType::model_fault, 2);
            }
            let own: DeviceLocation = pick_device(device, layer_devices, i);
            match layer_storage(config, model.layout, model.layers[i], dtype, own) {
                Ok(storage) => {
                    layers.push(storage);
                },
                Err(e) => {
                    proof {
                        if model.layout !is Mla {
                            let all = model.layers@.take(count as int);
                            assert(all.take(i + 1) =~= model.layers@.take(i + 1));
                            config.cache_type.first_fault_stays(
                                model.layout,
                                all,
                                i + 1,
                                config.block_size,
                            );
                        }
                    }
                    return Err(e);
                },
            }
            i += 1;
        }
        Ok(layers)
    }

    /// The decoded blocks of each layer that `layer_devices` has an entry for, if any are to be
    /// kept; they lie where the layer lies.
    ///
    /// The megabytes are shared out evenly among the layers of the model.
    pub fn allocate_decoded_gpu_cache(
        model: &ModelHeads,
        config: &CacheConfig,
        decoded_dtype: DType,
        device: DeviceLocation,
        layer_devices: &Vec<Option<DeviceLocation>>,
    ) -> (decoded: Result<Option<Vec<DecodedKVCache>>, CacheError>)
        requires
            can_be_decoded(*config, *model, decoded_dtype, layer_devices.len()),
        ensures
            match decoded {
                Ok(kept) => match config.cache_type {
                    PagedCacheType::TurboQuantCached { decoded_cache_mb } => {
                        &&& model.layout is Standard
                        &&& kept is Some <==> decoded_cache_mb != 0 && model.layers.len() != 0
                        &&& kept matches Some(layers) ==> {
                            &&& layers.len() == stored_layers(*model, layer_devices.len())
                            &&& forall|i: int|
                                0 <= i < layers.len() ==> (#[trigger] layers@[i]).is_new_for(
                                    decoded_cache_mb,
                                    *model,
                                    i,
                                    config.block_size,
                                    decoded_dtype,
                                    device_of(device, layer_devices@, i),
                                )
                        }
                    },
                    _ => kept is None,
                },
                Err(e) => {
                    &&& e == CacheError::DecodedLayout
                    &&& config.cache_type is TurboQuantCached
                    &&& model.layout !is Standard
                },
            },
    {
        let megabytes: usize = match config.cache_type.turboquant_cache_decoded_size() {
            Some(megabytes) => megabytes,
            None => {
                return Ok(None);
            },
        };
        match model.layout {
            KvCacheLayout::Standard => {},
            _ => {
                return Err(CacheError::DecodedLayout);
            },
        }
        if megabytes == 0 {
            return Ok(None);
        }
        let total: usize = megabytes * 1024 * 1024;
        let num_layers: usize = model.layers.len();
        if num_layers == 0 {
            return Ok(None);
        }
        let per_layer: usize = total / num_layers;
        let count: usize = if layer_devices.len() <= num_layers {
            layer_devices.len()
        } else {
            num_layers
        };
        let element: usize = decoded_dtype.size_in_bytes();
        let block_size: usize = config.block_size;
        let mut layers: Vec<DecodedKVCache> = Vec::new();
        let mut i: usize = 0;
        while i < count
            invariant
                i <= count,
                count == stored_layers(*model, layer_devices.len()),
                num_layers == model.layers.len(),
                num_layers > 0,
                block_size == config.block_size,
                element == decoded_dtype.spec_size_in_bytes(),
                total == megabytes * 1024 * 1024,
                per_layer == total as int / num_layers as int,
                layers.len() == i,
                forall|j: int|
                    0 <= j < count ==> decoded_is_countable(
                        #[trigger] model.layers@[j],
                        config.block_size as int,
                        decoded_dtype,
                    ),
                forall|j: int|
                    0 <= j < i ==> (#[trigger] layers@[j]).is_new_for(
                        megabytes,
                        *model,
                        j,
                        config.block_size,
                        decoded_dtype,
                        device_of(device, layer_devices@, j),
                    ),
            decreases count - i,
        {
            let layer: LayerHeads = model.layers[i];
            assert(decoded_is_countable(
                model.layers@[i as int],
                config.block_size as int,
                decoded_dtype,
            ));
            let bytes: usize = block_size * layer.num_kv_heads * (layer.k_head_dim
                + layer.v_head_dim) * element;
            let share: usize = per_layer / bytes;
            let slots: usize = if share < 1 {
                1
            } else {
                share
            };
            let own: DeviceLocation = pick_device(device, layer_devices, i);
            layers.push(DecodedKVCache::new(slots, block_size, layer, decoded_dtype, own));
            i += 1;
        }
        Ok(Some(layers))
    }

    /// The storage of all caches of a model whose activations have the type `dtype`.
    pub fn new(
        model: &ModelHeads,
        config: &CacheConfig,
        dtype: DType,
        device: DeviceLocation,
        layer_devices: &Vec<Option<DeviceLocation>>,
    ) -> (engine: Result<Self, CacheError>)
        requires
            can_be_stored(*config, *model, config.cache_type.storage_dtype(dtype), layer_devices.len()),
            storage_fault(*config, *model, stored_layers(*model, layer_devices.len())) is None
                ==> can_be_decoded(*config, *model, dtype, layer_devices.len()),
        ensures
            ({
                let count = stored_layers(*model, layer_devices.len());
                let decoded = config.cache_type is TurboQuantCached;
                match engine {
                    Ok(e) => {
                        &&& storage_fault(*config, *model, count) is None
                        &&& decoded ==> model.layout is Standard
                        &&& e.gpu_cache.len() == count
                        &&& forall|i: int|
                            0 <= i < count ==> (#[trigger] e.gpu_cache@[i]).is_for(
                                *config,
                                model.layout,
                                model.layers@[i],
                                config.cache_type.storage_dtype(dtype),
                                device_of(device, layer_devices@, i),
                            )
                        &&& e.decoded_gpu_cache is Some <==> (config.cache_type matches
                            PagedCacheType::TurboQuantCached { decoded_cache_mb }
                            && decoded_cache_mb != 0 && model.layers.len() != 0)
                        &&& e.decoded_gpu_cache matches Some(layers) ==> layers.len() == count
                            && forall|i: int|
                            0 <= i < count ==> (#[trigger] layers@[i]).is_new_for(
                                config.cache_type->decoded_cache_mb,
                                *model,
                                i,
                                config.block_size,
                                dtype,
                                device_of(device, layer_devices@, i),
                            )
                    },
                    Err(e) => match storage_fault(*config, *model, count) {
                        Some(fault) => e == fault,
                        None => decoded && model.layout !is Standard && e
                            == CacheError::DecodedLayout,
                    },
                }
            }),
    {
        let cache_dtype: DType = config.cache_type.to_dtype(dtype)?;
        let gpu_cache: Vec<LayerStorage> = CacheEngine::allocate_gpu_cache(
            model,
            config,
            cache_dtype,
            device,
            layer_devices,
        )?;
        let decoded_gpu_cache: Option<Vec<DecodedKVCache>> =
            CacheEngine::allocate_decoded_gpu_cache(model, config, dtype, device, layer_devices)?;
        Ok(CacheEngine { gpu_cache, decoded_gpu_cache })
    }

    /// Whether decoded blocks are kept.
    pub fn has_decoded_kv_cache(&self) -> (yes: bool)
        ensures
            yes == self.decoded_gpu_cache is Some,
    {
        self.decoded_gpu_cache.is_some()
    }
}

/// Bytes of the storage of one layer of a model whose activations have the type `act_dtype`.
pub open spec fn storage_bytes(
    config: CacheConfig,
    layout: KvCacheLayout,
    layer: LayerHeads,
    act_dtype: DType,
) -> int {
    let dtype = config.cache_type.storage_dtype(act_dtype);
    let keys = element_count(
        key_dims(
            config.cache_type,
            layout,
            layer,
            config.num_gpu_blocks,
            config.block_size,
            dtype,
        ),
    );
    let values = element_count(
        value_dims(config.cache_type, layout, layer, config.num_gpu_blocks, config.block_size),
    );
    (keys + values) * dtype.spec_size_in_bytes()
}

/// Bytes of the storage of the first `count` layers.
pub open spec fn layers_storage_bytes(
    config: CacheConfig,
    model: ModelHeads,
    count: int,
    act_dtype: DType,
) -> int
    decreases count,
{
    if count <= 0 {
        0
    } else {
        layers_storage_bytes(config, model, count - 1, act_dtype) + storage_bytes(
            config,
            model.layout,
            model.layers@[count - 1],
            act_dtype,
        )
    }
}

/// Bytes of one block of one layer.
spec fn layer_block_bytes(
    config: CacheConfig,
    layout: KvCacheLayout,
    layer: LayerHeads,
    act_dtype: DType,
) -> int {
    let block_size = config.block_size as int;
    let size = config.cache_type.storage_dtype(act_dtype).spec_size_in_bytes() as int;
    let cost = config.cache_type.layer_cost(layer, block_size);
    match layout {
        KvCacheLayout::Mla { kv_lora_rank, kpe_head_dim } => block_size * (kv_lora_rank
            + kpe_head_dim) * size,
        _ => match config.cache_type {
            PagedCacheType::KVarN() => cost,
            _ => cost * block_size * size,
        },
    }
}

#[verifier::spinoff_prover]
proof fn counts_three(a: usize, b: usize, c: usize)
    ensures
        element_count(seq![a, b, c]) == a * b * c,
{
    let (one, ab, abc) = (seq![a], seq![a, b], seq![a, b, c]);
    assert(one.drop_last() =~= Seq::<usize>::empty() && one.last() == a);
    assert(element_count(Seq::<usize>::empty()) == 1);
    assert(element_count(one) == element_count(one.drop_last()) * one.last() as nat);
    assert(ab.drop_last() =~= one && ab.last() == b);
    assert(element_count(ab) == element_count(one) * b as nat);
    assert(abc.drop_last() =~= ab && abc.last() == c);
    assert(element_count(abc) == element_count(ab) * c as nat);
}

#[verifier::spinoff_prover]
proof fn counts_four(a: usize, b: usize, c: usize, d: usize)
    ensures
        element_count(seq![a, b, c, d]) == a * b * c * d,
{
    counts_three(a, b, c);
    let abcd = seq![a, b, c, d];
    assert(abcd.drop_last() =~= seq![a, b, c] && abcd.last() == d);
    assert(element_count(abcd) == element_count(seq![a, b, c]) * d as nat);
}

#[verifier::spinoff_prover]
proof fn counts_five(a: usize, b: usize, c: usize, d: usize, e: usize)
    ensures
        element_count(seq![a, b, c, d, e]) == a * b * c * d * e,
{
    counts_four(a, b, c, d);
    let abcde = seq![a, b, c, d, e];
    assert(abcde.drop_last() =~= seq![a, b, c, d] && abcde.last() == e);
    assert(element_count(abcde) == element_count(seq![a, b, c, d]) * e as nat);
}

/// Whether pieces of 16 bytes divide the keys of a layer evenly, if keys are stored in pieces.
pub open spec fn keys_divide_evenly(
    config: CacheConfig,
    layout: KvCacheLayout,
    layer: LayerHeads,
    act_dtype: DType,
) -> bool {
    let size = config.cache_type.storage_dtype(act_dtype).spec_size_in_bytes() as int;
    config.cache_type.splits_keys(layout) ==> size != 0 && layer.k_head_dim as int % (16int / size)
        == 0
}

/// Keys in `p` pieces of `x` elements take as much as keys of `p * x` elements.
proof fn pieces_are_blocks(n: int, h: int, p: int, x: int, v: int, b: int, size: int)
    ensures
        (n * h * p * b * x + n * h * v * b) * size == n * (h * (p * x + v) * b * size),
{
    let heads = n * h;
    let keys = p * x;
    let width = keys + v;
    assert(heads * p * b * x == heads * keys * b) by (nonlinear_arith)
        requires
            keys == p * x,
    ;
    assert(heads * keys * b + heads * v * b == heads * width * b) by (nonlinear_arith)
        requires
            width == keys + v,
    ;
    assert(heads * width * b * size == n * (h * width * b * size)) by (nonlinear_arith)
        requires
            heads == n * h,
    ;
}

proof fn layer_storage_is_its_blocks(
    config: CacheConfig,
    layout: KvCacheLayout,
    layer: LayerHeads,
    act_dtype: DType,
)
    requires
        layout is Mla ==> config.cache_type is Auto || config.cache_type is F8E4M3,
        layout !is Mla ==> config.cache_type.layer_is_countable(layer, config.block_size as int),
        keys_divide_evenly(config, layout, layer, act_dtype),
    ensures
        storage_bytes(config, layout, layer, act_dtype) == config.num_gpu_blocks
            * layer_block_bytes(config, layout, layer, act_dtype),
{
    let n = config.num_gpu_blocks;
    let b = config.block_size;
    let h = layer.num_kv_heads;
    let size = config.cache_type.storage_dtype(act_dtype).spec_size_in_bytes();
    match layout {
        KvCacheLayout::Mla { kv_lora_rank, kpe_head_dim } => {
            counts_three(n, b, kv_lora_rank);
            counts_three(n, b, kpe_head_dim);
            assert((n * b * kv_lora_rank + n * b * kpe_head_dim) * size == n * (b * (kv_lora_rank
                + kpe_head_dim) * size)) by (nonlinear_arith);
        },
        _ => match config.cache_type {
            PagedCacheType::TurboQuant() | PagedCacheType::TurboQuantCached { .. } => {
                let k = row_len(layer.k_head_dim as int);
                let v = row_len(layer.v_head_dim as int);
                counts_four(n, h, b, k as usize);
                counts_four(n, h, b, v as usize);
                assert((n * h * b * k + n * h * b * v) * 1 == n * (h * (k + v) * b * 1))
                    by (nonlinear_arith);
            },
            PagedCacheType::KVarN() => {
                let k = key_record_len(layer.k_head_dim as int, b as int);
                let v = value_record_len(layer.v_head_dim as int, b as int);
                counts_three(n, h, k as usize);
                counts_three(n, h, v as usize);
                assert((n * h * k + n * h * v) * 1 == n * (h * (k + v))) by (nonlinear_arith);
            },
            _ => {
                let x = (16int / size as int) as usize;
                let k = layer.k_head_dim;
                let v = layer.v_head_dim;
                let p = k / x;
                counts_five(n, h, p, b, x);
                counts_four(n, h, v, b);
                assert(k == p * x) by {
                    vstd::arithmetic::div_mod::lemma_fundamental_div_mod(k as int, x as int);
                    assert(x * p == p * x) by (nonlinear_arith);
                }
                pieces_are_blocks(
                    n as int,
                    h as int,
                    p as int,
                    x as int,
                    v as int,
                    b as int,
                    size as int,
                );
            },
        },
    }
}

proof fn blocks_of_layers(config: CacheConfig, model: ModelHeads, count: int, act_dtype: DType)
    requires
        0 <= count <= model.layers.len(),
        model.layout is Mla ==> config.cache_type is Auto || config.cache_type is F8E4M3,
        model.layout !is Mla ==> forall|i: int|
            0 <= i < count ==> config.cache_type.layer_is_countable(
                #[trigger] model.layers@[i],
                config.block_size as int,
            ),
        forall|i: int|
            0 <= i < count ==> keys_divide_evenly(
                config,
                model.layout,
                #[trigger] model.layers@[i],
                act_dtype,
            ),
    ensures
        ({
            let block_size = config.block_size as int;
            let size = config.cache_type.storage_dtype(act_dtype).spec_size_in_bytes() as int;
            let cost = config.cache_type.layers_cost(model.layers@, count, block_size);
            layers_storage_bytes(config, model, count, act_dtype) == config.num_gpu_blocks * (
            match model.layout {
                KvCacheLayout::Mla { kv_lora_rank, kpe_head_dim } => count * block_size * (
                kv_lora_rank + kpe_head_dim) * size,
                _ => match config.cache_type {
                    PagedCacheType::KVarN() => cost,
                    _ => cost * block_size * size,
                },
            })
        }),
    decreases count,
{
    let n = config.num_gpu_blocks as int;
    let b = config.block_size as int;
    let size = config.cache_type.storage_dtype(act_dtype).spec_size_in_bytes() as int;
    if count == 0 {
        assert(n * (0 * b * size) == 0) by (nonlinear_arith);
        if let KvCacheLayout::Mla { kv_lora_rank, kpe_head_dim } = model.layout {
            let width = kv_lora_rank + kpe_head_dim;
            assert(n * (0 * b * width * size) == 0) by (nonlinear_arith);
        }
    } else {
        let layer = model.layers@[count - 1];
        blocks_of_layers(config, model, count - 1, act_dtype);
        assert(keys_divide_evenly(config, model.layout, layer, act_dtype));
        layer_storage_is_its_blocks(config, model.layout, layer, act_dtype);
        let before = config.cache_type.layers_cost(model.layers@, count - 1, b);
        let cost = config.cache_type.layer_cost(layer, b);
        assert(n * (before * b * size) + n * (cost * b * size) == n * ((before + cost) * b * size))
            by (nonlinear_arith);
        assert(n * before + n * cost == n * (before + cost)) by (nonlinear_arith);
        if let KvCacheLayout::Mla { kv_lora_rank, kpe_head_dim } = model.layout {
            let width = kv_lora_rank + kpe_head_dim;
            assert(n * ((count - 1) * b * width * size) + n * (b * width * size) == n * (count * b
                * width * size)) by (nonlinear_arith);
        }
    }
}

/// The storage of a model takes exactly as many bytes as its blocks are said to cost, whatever
/// the cache type, if pieces of 16 bytes divide the keys evenly.
pub proof fn storage_is_what_blocks_cost(config: CacheConfig, model: ModelHeads, act_dtype: DType)
    requires
        config.cache_type.model_fault(model.layout, model.layers@, config.block_size) is None,
        config.cache_type.model_is_countable(act_dtype, model, config.block_size),
        forall|i: int|
            0 <= i < model.layers.len() ==> keys_divide_evenly(
                config,
                model.layout,
                #[trigger] model.layers@[i],
                act_dtype,
            ),
    ensures
        layers_storage_bytes(config, model, model.layers.len() as int, act_dtype)
            == config.num_gpu_blocks * config.cache_type.block_bytes(
            act_dtype,
            model,
            config.block_size as int,
        ),
{
    if model.layout !is Mla {
        assert forall|i: int| 0 <= i < model.layers.len() implies
            config.cache_type.layer_is_countable(
            #[trigger] model.layers@[i],
            config.block_size as int,
        ) by {
            config.cache_type.no_fault_before(model.layout, model.layers@, i, config.block_size);
        }
    }
    blocks_of_layers(config, model, model.layers.len() as int, act_dtype);
}

/// Bytes of the first `count` of some storages.
pub open spec fn allocated_bytes(layers: Seq<LayerStorage>, count: int) -> int
    decreases count,
{
    if count <= 0 {
        0
    } else {
        let last = layers[count - 1];
        allocated_bytes(layers, count - 1) + (element_count(last.key_dims@) + element_count(
            last.value_dims@,
        )) * last.dtype.spec_size_in_bytes()
    }
}

proof fn allocated_is_stored(
    config: CacheConfig,
    model: ModelHeads,
    act_dtype: DType,
    layers: Seq<LayerStorage>,
    count: int,
)
    requires
        0 <= count <= layers.len(),
        layers.len() <= model.layers.len(),
        forall|i: int|
            0 <= i < layers.len() ==> (#[trigger] layers[i]).is_for(
                config,
                model.layout,
                model.layers@[i],
                config.cache_type.storage_dtype(act_dtype),
                layers[i].device,
            ),
    ensures
        allocated_bytes(layers, count) == layers_storage_bytes(config, model, count, act_dtype),
    decreases count,
{
    if count > 0 {
        allocated_is_stored(config, model, act_dtype, layers, count - 1);
        let last = layers[count - 1];
        assert(last.dtype == config.cache_type.storage_dtype(act_dtype));
    }
}

/// What is allocated for all layers of a model takes as many bytes as its blocks are said to
/// cost, if pieces of 16 bytes divide the keys evenly.
pub proof fn allocated_is_what_blocks_cost(
    config: CacheConfig,
    model: ModelHeads,
    act_dtype: DType,
    device: DeviceLocation,
    layer_devices: Seq<Option<DeviceLocation>>,
    layers: Seq<LayerStorage>,
)
    requires
        config.cache_type.model_fault(model.layout, model.layers@, config.block_size) is None,
        config.cache_type.model_is_countable(act_dtype, model, config.block_size),
        forall|i: int|
            0 <= i < model.layers.len() ==> keys_divide_evenly(
                config,
                model.layout,
                #[trigger] model.layers@[i],
                act_dtype,
            ),
        layers.len() == model.layers.len(),
        forall|i: int|
            0 <= i < layers.len() ==> (#[trigger] layers[i]).is_for(
                config,
                model.layout,
                model.layers@[i],
                config.cache_type.storage_dtype(act_dtype),
                device_of(device, layer_devices, i),
            ),
    ensures
        allocated_bytes(layers, layers.len() as int) == config.num_gpu_blocks
            * config.cache_type.block_bytes(act_dtype, model, config.block_size as int),
{
    allocated_is_stored(config, model, act_dtype, layers, layers.len() as int);
    storage_is_what_blocks_cost(config, model, act_dtype);
}

/// The storage of a compressed layout: per block and token, the keys hold one compressed vector
/// and the values one positional key, whatever heads the layer has.
pub proof fn compressed_layout_stores_its_vectors(
    storage: LayerStorage,
    config: CacheConfig,
    kv_lora_rank: usize,
    kpe_head_dim: usize,
    layer: LayerHeads,
    dtype: DType,
    device: DeviceLocation,
)
    requires
        config.cache_type is Auto || config.cache_type is F8E4M3,
        storage.is_for(
            config,
            (KvCacheLayout::Mla { kv_lora_rank, kpe_head_dim }),
            layer,
            dtype,
            device,
        ),
    ensures
        storage.key_dims@ == seq![config.num_gpu_blocks, config.block_size, kv_lora_rank],
        storage.value_dims@ == seq![config.num_gpu_blocks, config.block_size, kpe_head_dim],
        storage.dtype == dtype,
        !storage.zeroed,
        storage.device == device,
{
}

/// The storage of plain keys and values: per block and head, the keys are cut into pieces of 16
/// bytes that stand one after the other for all tokens, and the values have a row of tokens for
/// each dimension. Pieces cut off less than one piece of the dimensions.
pub proof fn plain_layout_stores_its_heads(
    storage: LayerStorage,
    config: CacheConfig,
    layout: KvCacheLayout,
    layer: LayerHeads,
    dtype: DType,
    device: DeviceLocation,
)
    requires
        config.cache_type is Auto || config.cache_type is F8E4M3,
        layout !is Mla,
        dtype.spec_size_in_bytes() != 0,
        storage.is_for(config, layout, layer, dtype, device),
    ensures
        ({
            let keys = storage.key_dims@;
            &&& keys.len() == 5
            &&& keys[0] == config.num_gpu_blocks
            &&& keys[1] == layer.num_kv_heads
            &&& keys[3] == config.block_size
            &&& keys[4] * dtype.spec_size_in_bytes() == 16
            &&& keys[2] * keys[4] <= layer.k_head_dim < (keys[2] + 1) * keys[4]
        }),
        storage.value_dims@ == seq![
            config.num_gpu_blocks,
            layer.num_kv_heads,
            layer.v_head_dim,
            config.block_size,
        ],
        storage.dtype == dtype,
        !storage.zeroed,
        storage.device == device,
{
    let size = dtype.spec_size_in_bytes() as int;
    let x = 16int / size;
    assert(size == 1 || size == 2 || size == 4 || size == 8);
    assert(x * size == 16);
    let k = layer.k_head_dim as int;
    vstd::arithmetic::div_mod::lemma_fundamental_div_mod(k, x);
    assert((k / x) * x <= k < (k / x + 1) * x) by (nonlinear_arith)
        requires
            k == x * (k / x) + k % x,
            0 <= k % x < x,
    ;
}

/// The storage of packed caches: TurboQuant has a row of bytes for each block, head and token,
/// KVarN a record of bytes for each block and head, and both start out as zeros. Keys and values
/// have rows and records of their own dimension.
pub proof fn packed_layouts_store_bytes(
    storage: LayerStorage,
    config: CacheConfig,
    layout: KvCacheLayout,
    layer: LayerHeads,
    dtype: DType,
    device: DeviceLocation,
)
    requires
        config.cache_type !is Auto,
        config.cache_type !is F8E4M3,
        config.cache_type.rows_are_countable(layer, config.block_size),
        config.cache_type.layer_fault(layer, config.block_size) is None,
        storage.is_for(config, layout, layer, dtype, device),
    ensures
        storage.dtype == DType::U8,
        storage.zeroed,
        storage.device == device,
        config.cache_type !is KVarN ==> {
            &&& storage.key_dims@.take(3) == seq![
                config.num_gpu_blocks,
                layer.num_kv_heads,
                config.block_size,
            ]
            &&& storage.value_dims@.take(3) == storage.key_dims@.take(3)
            &&& storage.key_dims@.len() == 4
            &&& storage.value_dims@.len() == 4
            &&& storage.key_dims@[3] == row_len(layer.k_head_dim as int)
            &&& storage.value_dims@[3] == row_len(layer.v_head_dim as int)
        },
        config.cache_type is KVarN ==> {
            &&& storage.key_dims@.take(2) == seq![config.num_gpu_blocks, layer.num_kv_heads]
            &&& storage.value_dims@.take(2) == storage.key_dims@.take(2)
            &&& storage.key_dims@.len() == 3
            &&& storage.value_dims@.len() == 3
            &&& storage.key_dims@[2] == key_record_len(
                layer.k_head_dim as int,
                config.block_size as int,
            )
            &&& storage.value_dims@[2] == value_record_len(
                layer.v_head_dim as int,
                config.block_size as int,
            )
        },
{
    if config.cache_type is KVarN {
        assert(storage.key_dims@.take(2) =~= seq![config.num_gpu_blocks, layer.num_kv_heads]);
        assert(storage.value_dims@.take(2) =~= seq![config.num_gpu_blocks, layer.num_kv_heads]);
    } else {
        assert(storage.key_dims@.take(3) =~= seq![
            config.num_gpu_blocks,
            layer.num_kv_heads,
            config.block_size,
        ]);
        assert(storage.value_dims@.take(3) =~= seq![
            config.num_gpu_blocks,
            layer.num_kv_heads,
            config.block_size,
        ]);
    }
}

/// Plain storage has the type of the activations, storage of 8-bit floats that type, and packed
/// storage holds bytes.
pub proof fn storage_has_the_type_of_its_kind(cache_type: PagedCacheType, act_dtype: DType)
    ensures
        cache_type is Auto ==> cache_type.storage_dtype(act_dtype) == act_dtype,
        cache_type is F8E4M3 ==> cache_type.storage_dtype(act_dtype) == DType::F8E4M3,
        cache_type !is Auto && cache_type !is F8E4M3 ==> cache_type.storage_dtype(act_dtype)
            == DType::U8,
{
}

/// Which layers can have which caches: any can have a plain one. TurboQuant asks for head
/// dimensions that are powers of two, of keys and of values, and names the keys' first; no packed
/// cache has a compressed layout.
pub proof fn caches_ask_for_their_dimensions(
    cache_type: PagedCacheType,
    layer: LayerHeads,
    block_size: usize,
)
    ensures
        cache_type is Auto || cache_type is F8E4M3 ==> cache_type.layer_fault(layer, block_size)
            is None,
        cache_type is TurboQuant || cache_type is TurboQuantCached ==> {
            &&& cache_type.layer_fault(layer, block_size) is None <==> is_power_of_two(
                layer.k_head_dim as nat,
            ) && is_power_of_two(layer.v_head_dim as nat)
            &&& !is_power_of_two(layer.k_head_dim as nat) ==> cache_type.layer_fault(
                layer,
                block_size,
            ) == Some(
                CacheError::Turbo(
                    TurboLayoutError::HeadDimNotPowerOfTwo { head_dim: layer.k_head_dim },
                ),
            )
        },
        cache_type is KVarN ==> {
            &&& cache_type.layer_fault(layer, block_size) is None <==> shape_fault(
                layer.k_head_dim,
                block_size,
            ) is None && shape_fault(layer.v_head_dim, block_size) is None
            &&& shape_fault(layer.k_head_dim, block_size) matches Some(fault)
                ==> cache_type.layer_fault(layer, block_size) == Some(CacheError::Kvarn(fault))
        },
{
}

/// No packed cache has a compressed layout; any other layout can have one if each of its layers
/// can, and is refused with the fault of its first layer that cannot.
pub proof fn first_impossible_layer_refuses(
    cache_type: PagedCacheType,
    layout: KvCacheLayout,
    layers: Seq<LayerHeads>,
    block_size: usize,
    first: int,
)
    requires
        0 <= first <= layers.len(),
        forall|i: int|
            0 <= i < first ==> cache_type.layer_fault(#[trigger] layers[i], block_size) is None,
        first < layers.len() ==> cache_type.layer_fault(layers[first], block_size) is Some,
    ensures
        layout is Mla ==> (cache_type.model_fault(layout, layers, block_size) == if cache_type
            is Auto || cache_type is F8E4M3 {
            None
        } else {
            Some(CacheError::MlaUnsupported)
        }),
        layout !is Mla ==> cache_type.model_fault(layout, layers, block_size) == if first
            < layers.len() {
            cache_type.layer_fault(layers[first], block_size)
        } else {
            None
        },
    decreases layers.len(),
{
    if layout !is Mla && layers.len() > 0 {
        let rest = layers.drop_last();
        if first < layers.len() {
            if first < rest.len() {
                assert(rest[first] == layers[first]);
                first_impossible_layer_refuses(cache_type, layout, rest, block_size, first);
            } else {
                first_impossible_layer_refuses(cache_type, layout, rest, block_size, first);
            }
        } else {
            assert(cache_type.layer_fault(layers[layers.len() - 1], block_size) is None);
            first_impossible_layer_refuses(cache_type, layout, rest, block_size, first - 1);
        }
    }
}

/// Layers get storage as long as there are layers and entries for devices: one more entry than
/// layers changes nothing, and one more layer than entries neither.
pub proof fn storage_ends_with_layers_or_devices(model: ModelHeads, num_devices: usize)
    ensures
        stored_layers(model, num_devices) <= num_devices,
        stored_layers(model, num_devices) <= model.layers.len(),
        stored_layers(model, num_devices) == num_devices || stored_layers(model, num_devices)
            == model.layers.len(),
{
}

/// The decoded blocks of the layers, each with an even share, fit in the megabytes; one more per
/// layer would not. A layer whose share is less than a block has one all the same.
pub proof fn decoded_blocks_fill_their_share(
    megabytes: int,
    num_layers: int,
    layer: LayerHeads,
    block_size: int,
    dtype: DType,
    block: int,
)
    requires
        megabytes >= 0,
        num_layers > 0,
        block_size >= 0,
        block == block_size * layer.num_kv_heads * layer.k_head_dim * dtype.spec_size_in_bytes()
            + block_size * layer.num_kv_heads * layer.v_head_dim * dtype.spec_size_in_bytes(),
        block > 0,
    ensures
        ({
            let slots = decoded_slots(megabytes, num_layers, layer, block_size, dtype);
            let bytes = megabytes * 1048576;
            &&& slots >= 1
            &&& slots > 1 ==> slots * block * num_layers <= bytes
            &&& (slots + 1) * block * num_layers > bytes
        }),
{
    let heads = block_size * layer.num_kv_heads;
    let k = layer.k_head_dim as int;
    let v = layer.v_head_dim as int;
    let size = dtype.spec_size_in_bytes() as int;
    assert(heads * (k + v) * size == heads * k * size + heads * v * size) by (nonlinear_arith);
    assert(block == decoded_block_bytes(layer, block_size, dtype));
    let bytes = megabytes * 1024 * 1024;
    let part = bytes / num_layers;
    let share = part / block;
    vstd::arithmetic::div_mod::lemma_fundamental_div_mod(bytes, num_layers);
    vstd::arithmetic::div_mod::lemma_fundamental_div_mod(part, block);
    assert(share * block * num_layers <= bytes < (share + 1) * block * num_layers && share >= 0)
        by (nonlinear_arith)
        requires
            bytes >= 0,
            num_layers > 0,
            block > 0,
            bytes == num_layers * part + bytes % num_layers,
            0 <= bytes % num_layers < num_layers,
            part == block * share + part % block,
            0 <= part % block < block,
    ;
    if share < 1 {
        assert((1 + 1) * block * num_layers > bytes) by (nonlinear_arith)
            requires
                bytes < (share + 1) * block * num_layers,
                share == 0,
                block > 0,
                num_layers > 0,
        ;
    }
}

/// The names of the cache types.
pub proof fn cache_types_have_their_names(text: Seq<char>)
    ensures
        named_cache_type("auto"@) == Some(PagedCacheType::Auto()),
        named_cache_type("f8e4m3"@) == Some(PagedCacheType::F8E4M3()),
        named_cache_type("turboquant"@) == Some(PagedCacheType::TurboQuant()),
        named_cache_type("tq"@) == Some(PagedCacheType::TurboQuant()),
        named_cache_type("kvarn"@) == Some(PagedCacheType::KVarN()),
        named_cache_type("kvarn_k4v2_g128"@) == Some(PagedCacheType::KVarN()),
        named_cache_type(text) == Some(PagedCacheType::Auto()) ==> text == "auto"@,
        named_cache_type(text) == Some(PagedCacheType::F8E4M3()) ==> text == "f8e4m3"@,
        named_cache_type(text) == Some(PagedCacheType::TurboQuant()) ==> text == "turboquant"@
            || text == "tq"@,
        named_cache_type(text) == Some(PagedCacheType::KVarN()) ==> text == "kvarn"@ || text
            == "kvarn_k4v2_g128"@,
{
    reveal_strlit("auto");
    reveal_strlit("f8e4m3");
    reveal_strlit("turboquant");
    reveal_strlit("tq");
    reveal_strlit("kvarn");
    reveal_strlit("kvarn_k4v2_g128");
    assert("auto"@.len() == 4);
    assert("f8e4m3"@.len() == 6);
    assert("turboquant"@.len() == 10);
    assert("tq"@.len() == 2);
    assert("kvarn"@.len() == 5);
    assert("kvarn_k4v2_g128"@.len() == 15);
}

/// What follows `turboquant_cached:` is the number of megabytes if it is a number; any other text
/// that holds the name, at its beginning or not, asks for 512.
pub proof fn named_megabytes_are_kept(rest: Seq<char>, before: Seq<char>)
    ensures
        named_cache_type("turboquant_cached:"@ + rest) == Some(
            PagedCacheType::TurboQuantCached {
                decoded_cache_mb: match parsed_usize(rest) {
                    Some(megabytes) => megabytes,
                    None => 512,
                },
            },
        ),
        named_cache_type(before + "turboquant_cached:"@ + rest) is Some,
{
    reveal_strlit("auto");
    reveal_strlit("f8e4m3");
    reveal_strlit("turboquant");
    reveal_strlit("tq");
    reveal_strlit("kvarn");
    reveal_strlit("kvarn_k4v2_g128");
    reveal_strlit("turboquant_cached:");
    let prefix = "turboquant_cached:"@;
    assert(prefix.len() == 18);
    let text = prefix + rest;
    assert(text.subrange(0, prefix.len() as int) =~= prefix);
    assert(stands_at(text, prefix, 0));
    assert(text.skip(prefix.len() as int) =~= rest);
    let longer = before + prefix + rest;
    let at = before.len() as int;
    assert(longer.subrange(at, at + prefix.len()) =~= prefix);
    assert(stands_at(longer, prefix, at));
    assert("auto"@.len() == 4 && "f8e4m3"@.len() == 6 && "turboquant"@.len() == 10);
    assert("tq"@.len() == 2 && "kvarn"@.len() == 5 && "kvarn_k4v2_g128"@.len() == 15);
}

/// What is said of a text that names no cache type holds the text, between backquotes.
pub proof fn unknown_names_are_told(text: Seq<char>)
    ensures
        ({
            let message = unknown_cache_type(text);
            let at = "Unexpected `PagedCacheType`, got `"@.len() as int;
            &&& message.take(at) == "Unexpected `PagedCacheType`, got `"@
            &&& message.subrange(at, at + text.len()) == text
            &&& message.skip(at + text.len())
                == "` but expected `auto`, `f8e4m3`, `turboquant`, or `kvarn`."@
        }),
{
    let message = unknown_cache_type(text);
    let at = "Unexpected `PagedCacheType`, got `"@.len() as int;
    assert(message.take(at) =~= "Unexpected `PagedCacheType`, got `"@);
    assert(message.subrange(at, at + text.len()) =~= text);
    assert(message.skip(at + text.len())
        =~= "` but expected `auto`, `f8e4m3`, `turboquant`, or `kvarn`."@);
}

/// A layer lies on its own device if it has one, and on the device of the model otherwise.
pub proof fn layers_lie_on_their_own_device(
    device: DeviceLocation,
    layer_devices: Seq<Option<DeviceLocation>>,
    layer: int,
    own: DeviceLocation,
)
    ensures
        layer_devices[layer] == Some(own) ==> device_of(device, layer_devices, layer) == own,
        layer_devices[layer] is None ==> device_of(device, layer_devices, layer) == device,
{
}

/// What a block costs: for each layer and token of it, the elements of keys and values of all
/// heads at the size of an element; the bytes of their rows with TurboQuant; with KVarN the bytes
/// of the records of all heads, whatever the tokens; and the two vectors of a compressed layout.
pub proof fn one_layer_costs_its_keys_and_values(
    cache_type: PagedCacheType,
    act_dtype: DType,
    layout: KvCacheLayout,
    layer: LayerHeads,
    model: ModelHeads,
    block_size: int,
)
    requires
        model.layout == layout,
        model.layers@ == seq![layer],
    ensures
        ({
            let bytes = cache_type.block_bytes(act_dtype, model, block_size);
            let heads = layer.num_kv_heads as int;
            let (k, v) = (layer.k_head_dim as int, layer.v_head_dim as int);
            match layout {
                KvCacheLayout::Mla { kv_lora_rank, kpe_head_dim } => cache_type is Auto ==> bytes
                    == block_size * (kv_lora_rank + kpe_head_dim) * act_dtype.spec_size_in_bytes(),
                _ => {
                    &&& cache_type is Auto ==> bytes == heads * (k + v) * block_size
                        * act_dtype.spec_size_in_bytes()
                    &&& cache_type is F8E4M3 ==> bytes == heads * (k + v) * block_size
                    &&& cache_type is TurboQuant || cache_type is TurboQuantCached ==> bytes
                        == heads * (row_len(k) + row_len(v)) * block_size
                    &&& cache_type is KVarN ==> bytes == heads * (key_record_len(k, block_size)
                        + value_record_len(v, block_size))
                },
            }
        }),
{
    reveal_with_fuel(PagedCacheType::layers_cost, 2);
}

/// What the layers of a model cost adds up: a block of two models of one layout, taken as one,
/// costs what a block of each of them costs.
pub proof fn layers_add_up(
    cache_type: PagedCacheType,
    act_dtype: DType,
    whole: ModelHeads,
    first: ModelHeads,
    rest: ModelHeads,
    block_size: int,
)
    requires
        whole.layout == first.layout && whole.layout == rest.layout,
        whole.layers@ == first.layers@ + rest.layers@,
    ensures
        cache_type.block_bytes(act_dtype, whole, block_size) == cache_type.block_bytes(
            act_dtype,
            first,
            block_size,
        ) + cache_type.block_bytes(act_dtype, rest, block_size),
{
    let (a, b) = (first.layers@, rest.layers@);
    costs_add_up(cache_type, a, b, a.len() as int, 0, block_size);
    costs_add_up(cache_type, a, b, a.len() as int, b.len() as int, block_size);
    let size = cache_type.storage_dtype(act_dtype).spec_size_in_bytes() as int;
    let (n, m) = (a.len() as int, b.len() as int);
    let (x, y) = (
        cache_type.layers_cost(a, n, block_size),
        cache_type.layers_cost(b, m, block_size),
    );
    assert((x + y) * block_size == x * block_size + y * block_size) by (nonlinear_arith);
    assert((x + y) * block_size * size == x * block_size * size + y * block_size * size)
        by (nonlinear_arith);
    if let KvCacheLayout::Mla { kv_lora_rank, kpe_head_dim } = whole.layout {
        let width = kv_lora_rank + kpe_head_dim;
        assert((n + m) * block_size * width * size == n * block_size * width * size + m * block_size
            * width * size) by (nonlinear_arith);
    }
}

proof fn costs_add_up(
    cache_type: PagedCacheType,
    first: Seq<LayerHeads>,
    rest: Seq<LayerHeads>,
    n: int,
    m: int,
    block_size: int,
)
    requires
        n == first.len(),
        0 <= m <= rest.len(),
    ensures
        cache_type.layers_cost(first + rest, n + m, block_size) == cache_type.layers_cost(
            first,
            n,
            block_size,
        ) + cache_type.layers_cost(rest, m, block_size),
    decreases m,
{
    if m == 0 {
        costs_of_the_first(cache_type, first, rest, n, block_size);
    } else {
        costs_add_up(cache_type, first, rest, n, m - 1, block_size);
        assert((first + rest)[n + m - 1] == rest[m - 1]);
    }
}

proof fn costs_of_the_first(
    cache_type: PagedCacheType,
    first: Seq<LayerHeads>,
    rest: Seq<LayerHeads>,
    n: int,
    block_size: int,
)
    requires
        n <= first.len(),
    ensures
        cache_type.layers_cost(first + rest, n, block_size) == cache_type.layers_cost(
            first,
            n,
            block_size,
        ),
    decreases n,
{
    if n > 0 {
        costs_of_the_first(cache_type, first, rest, n - 1, block_size);
        assert((first + rest)[n - 1] == first[n - 1]);
    }
}

/// A new cache of decoded blocks holds no block, has a slot for each block of its share, and has
/// the shape of the blocks of its layer.
pub proof fn new_caches_are_empty(
    cache: DecodedKVCache,
    megabytes: usize,
    model: ModelHeads,
    index: int,
    block_size: usize,
    dtype: DType,
    device: DeviceLocation,
    block: u32,
    slot: int,
)
    requires
        cache.is_new_for(megabytes, model, index, block_size, dtype, device),
    ensures
        !cache.physical_to_slot@.contains_key(block),
        0 <= slot < cache.slot_to_physical.len() ==> cache.slot_to_physical@[slot] is None
            && cache.lru_clock@[slot] == 0,
        cache.clock == 0,
        cache.lru_clock.len() == cache.slot_to_physical.len(),
        cache.block_size * cache.num_kv_heads * (cache.k_head_dim + cache.v_head_dim)
            * cache.dtype.spec_size_in_bytes() == decoded_block_bytes(
            model.layers@[index],
            block_size as int,
            dtype,
        ),
        cache.k_head_dim == model.layers@[index].k_head_dim,
        cache.device == device,
{
}

} // verus!
