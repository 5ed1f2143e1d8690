//! Settings of the GGUF code for processors: set by the program, or by the environment, whose
//! values the caller hands over.
use crate::text::{chars_of, parse_usize, parsed_usize, same_text};
use vstd::prelude::*;

verus! {

/// What the program sets; what is `None` is left to the environment.
#[derive(Clone, Copy, Debug, PartialEq, Eq, Structural)]
pub struct GgufCpuRuntimeOptions {
    pub cpu_moe_expert_cache: Option<usize>,
    pub cpu_moe_q4_1_expert_cache: Option<usize>,
    pub cpu_moe_q4k_expert_cache: Option<usize>,
    pub cpu_moe_parallel_topk: Option<bool>,
    pub cpu_q4k_matmul: Option<bool>,
    pub cpu_q4k_matmul_cache: Option<usize>,
    pub cpu_q4k_matmul_max_rows: Option<usize>,
}

pub const DEFAULT_DEQUANT_EXPERT_CACHE_LIMIT: usize = 0;

pub const DEFAULT_Q4_1_EXPERT_CACHE_LIMIT: usize = 256;

pub const DEFAULT_Q4K_EXPERT_CACHE_LIMIT: usize = 1024;

pub const DEFAULT_Q4K_MATMUL_CACHE_LIMIT: usize = 128;

pub const DEFAULT_Q4K_MATMUL_MAX_ROWS: usize = 64;

/// A number: as set by the program, else as the environment has it, else the default. What is
/// no number in the environment counts as absent.
pub open spec fn chosen_number(
    set: Option<usize>,
    environment: Option<Seq<char>>,
    default: usize,
) -> usize {
    match set {
        Some(value) => value,
        None => match environment {
            Some(text) => match parsed_usize(text) {
                Some(value) => value,
                None => default,
            },
            None => default,
        },
    }
}

/// The characters of a text that may be absent.
pub open spec fn text_of(text: Option<&str>) -> Option<Seq<char>> {
    match text {
        Some(t) => Some(t@),
        None => None,
    }
}

fn number(set: Option<usize>, environment: Option<&str>, default: usize) -> (value: usize)
    ensures
        value == chosen_number(set, text_of(environment), default),
{
    match set {
        Some(value) => value,
        None => match environment {
            Some(text) => match parse_usize(&chars_of(text)) {
                Some(value) => value,
                None => default,
            },
            None => default,
        },
    }
}

/// A switch: as set by the program, else on unless the environment has it as `0`.
pub open spec fn chosen_switch(set: Option<bool>, environment: Option<Seq<char>>) -> bool {
    match set {
        Some(on) => on,
        None => match environment {
            Some(text) => text != "0"@,
            None => true,
        },
    }
}

fn switch(set: Option<bool>, environment: Option<&str>) -> (on: bool)
    ensures
        on == chosen_switch(set, text_of(environment)),
{
    match set {
        Some(on) => on,
        None => match environment {
            Some(text) => !same_text(text, "0"),
            None => true,
        },
    }
}

impl GgufCpuRuntimeOptions {
    /// How many decoded experts are kept (`MISTRALRS_GGUF_CPU_MOE_EXPERT_CACHE`).
    pub fn expert_cache_limit(&self, environment: Option<&str>) -> (limit: usize)
        ensures
            limit == chosen_number(self.cpu_moe_expert_cache, text_of(environment), 0),
    {
        number(self.cpu_moe_expert_cache, environment, DEFAULT_DEQUANT_EXPERT_CACHE_LIMIT)
    }

    /// How many experts of the type Q4_1 are kept (`MISTRALRS_GGUF_CPU_MOE_Q4_1_EXPERT_CACHE`).
    pub fn q4_1_expert_cache_limit(&self, environment: Option<&str>) -> (limit: usize)
        ensures
            limit == chosen_number(self.cpu_moe_q4_1_expert_cache, text_of(environment), 256),
    {
        number(self.cpu_moe_q4_1_expert_cache, environment, DEFAULT_Q4_1_EXPERT_CACHE_LIMIT)
    }

    /// How many experts of the type Q4K are kept (`MISTRALRS_GGUF_CPU_MOE_Q4K_EXPERT_CACHE`).
    pub fn q4k_expert_cache_limit(&self, environment: Option<&str>) -> (limit: usize)
        ensures
            limit == chosen_number(self.cpu_moe_q4k_expert_cache, text_of(environment), 1024),
    {
        number(self.cpu_moe_q4k_expert_cache, environment, DEFAULT_Q4K_EXPERT_CACHE_LIMIT)
    }

    /// How many matrices of the type Q4K are kept (`MISTRALRS_GGUF_CPU_Q4K_MATMUL_CACHE`).
    pub fn q4k_matmul_cache_limit(&self, environment: Option<&str>) -> (limit: usize)
        ensures
            limit == chosen_number(self.cpu_q4k_matmul_cache, text_of(environment), 128),
    {
        number(self.cpu_q4k_matmul_cache, environment, DEFAULT_Q4K_MATMUL_CACHE_LIMIT)
    }

    /// For how many rows at most matrices of the type Q4K are multiplied without decoding them
    /// (`MISTRALRS_GGUF_CPU_Q4K_MATMUL_MAX_ROWS`).
    pub fn q4k_matmul_max_rows(&self, environment: Option<&str>) -> (rows: usize)
        ensures
            rows == chosen_number(self.cpu_q4k_matmul_max_rows, text_of(environment), 64),
    {
        number(self.cpu_q4k_matmul_max_rows, environment, DEFAULT_Q4K_MATMUL_MAX_ROWS)
    }

    /// Whether matrices of the type Q4K are multiplied without decoding them
    /// (`MISTRALRS_GGUF_CPU_Q4K_MATMUL`).
    pub fn q4k_matmul_enabled(&self, environment: Option<&str>) -> (on: bool)
        ensures
            on == chosen_switch(self.cpu_q4k_matmul, text_of(environment)),
    {
        switch(self.cpu_q4k_matmul, environment)
    }

    /// Whether the experts of a token work in parallel
    /// (`MISTRALRS_GGUF_CPU_MOE_PARALLEL_TOPK`).
    pub fn q4k_fused_moe_parallel_topk_enabled(&self, environment: Option<&str>) -> (on: bool)
        ensures
            on == chosen_switch(self.cpu_moe_parallel_topk, text_of(environment)),
    {
        switch(self.cpu_moe_parallel_topk, environment)
    }
}

/// How many bytes of staged experts are kept on a CUDA device, from the number of mebibytes in
/// the environment (`MISTRALRS_GGUF_CUDA_MOE_STAGED_CACHE_MB`); none if it is absent.
pub fn cuda_staged_cache_max_bytes(environment: Option<&str>) -> (bytes: usize)
    ensures
        ({
            let mb = chosen_number(None, text_of(environment), 0);
            bytes == if mb * 1048576 <= usize::MAX {
                mb * 1048576
            } else {
                usize::MAX as int
            }
        }),
{
    let mb: usize = number(None, environment, 0);
    match mb.checked_mul(1048576) {
        Some(bytes) => bytes,
        None => usize::MAX,
    }
}

/// A number that the program sets is taken; without one that of the environment, if it has a
/// number; and the default only if there is neither.
pub proof fn set_numbers_come_first(
    set: Option<usize>,
    text: Seq<char>,
    default: usize,
    value: usize,
)
    ensures
        chosen_number(Some(value), Some(text), default) == value,
        chosen_number(Some(value), None, default) == value,
        parsed_usize(text) == Some(value) ==> chosen_number(None, Some(text), default) == value,
        parsed_usize(text) is None ==> chosen_number(None, Some(text), default) == default,
        chosen_number(None, None, default) == default,
{
}

/// A switch that the program sets is as it is set; without that only a single `0` in the
/// environment turns it off.
pub proof fn set_switches_come_first(on: bool, text: Seq<char>)
    ensures
        chosen_switch(Some(on), Some(text)) == on,
        chosen_switch(Some(on), None) == on,
        chosen_switch(None, Some(text)) <==> !(text.len() == 1 && text[0] == '0'),
        chosen_switch(None, None),
{
    reveal_strlit("0");
    if text.len() == 1 && text[0] == '0' {
        assert(text =~= "0"@);
    }
}

} // verus!
