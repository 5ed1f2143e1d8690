//! Stacks of matrices of packed levels, with zero points and scales for groups of inputs.
//!
//! The scales are the bit patterns of 32-bit floats.
use crate::arith::{ceil_div, div_ceil, flat_index_bound};
use crate::gptq::fields::{
    bit_field, fields_fill_a_word, is_level_width, pack_factor, unpack_bits, GptqError,
};
use crate::tensor::element_count;
use vstd::arithmetic::power2::pow2;
use vstd::prelude::*;

verus! {

/// Weights as they are loaded: shapes and elements of the tensors.
pub struct GptqCpuParams {
    pub q_dims: Vec<usize>,
    pub q_weight: Vec<i32>,
    pub zero_dims: Option<Vec<usize>>,
    pub qzeros: Vec<i32>,
    pub scale_dims: Vec<usize>,
    pub scales: Vec<u32>,
    pub g_idx: Option<Vec<i32>>,
    pub bits: i32,
    pub is_marlin: bool,
    pub is_awq: bool,
}

/// The width of the input: AWQ packs the outputs, GPTQ the inputs.
pub open spec fn in_features_of(q: Seq<usize>, pack: int, is_awq: bool) -> int {
    if is_awq {
        q[q.len() - 2] as int
    } else {
        q[q.len() - 2] * pack
    }
}

/// The width of the output.
pub open spec fn out_features_of(q: Seq<usize>, pack: int, is_awq: bool) -> int {
    if is_awq {
        q[q.len() - 1] * pack
    } else {
        q[q.len() - 1] as int
    }
}

/// What is wrong with the shapes of weights.
pub open spec fn dims_fault(
    q: Seq<usize>,
    s: Seq<usize>,
    z: Seq<usize>,
    pack: int,
    is_awq: bool,
) -> Option<GptqError> {
    let n = q.len();
    let out = out_features_of(q, pack, is_awq);
    if !((n == 2 || n == 3) && s.len() == n && z.len() == n) {
        Some(GptqError::Rank)
    } else if n == 3 && (q[0] != s[0] || q[0] != z[0]) {
        Some(GptqError::Shape)
    } else if s[n - 2] != z[n - 2] || s[n - 1] != out {
        Some(GptqError::Shape)
    } else if z[n - 1] != ceil_div(out, pack) {
        Some(GptqError::ZeroShape)
    } else {
        None
    }
}

impl GptqCpuParams {
    /// The number of levels in a word.
    pub open spec fn pack(&self) -> int {
        32int / self.bits as int
    }

    /// What is wrong with the weights.
    pub open spec fn fault(&self) -> Option<GptqError> {
        if self.is_marlin {
            Some(GptqError::Marlin)
        } else if self.zero_dims is None {
            Some(GptqError::NoZeros)
        } else if !is_level_width(self.bits as int) {
            Some(GptqError::Bits { bits: self.bits as usize })
        } else {
            dims_fault(
                self.q_dims@,
                self.scale_dims@,
                self.zero_dims->0@,
                self.pack(),
                self.is_awq,
            )
        }
    }

    /// The tensors have as many elements as their shapes say, and the widths that follow from
    /// the shapes can be computed with.
    pub open spec fn is_loaded(&self) -> bool {
        &&& self.q_weight.len() == element_count(self.q_dims@)
        &&& self.zero_dims is Some ==> self.qzeros.len() == element_count(self.zero_dims->0@)
        &&& self.scales.len() == element_count(self.scale_dims@)
        &&& self.fault() is None || self.fault() == Some(GptqError::Shape) || self.fault() == Some(
            GptqError::ZeroShape,
        ) ==> {
            &&& in_features_of(self.q_dims@, self.pack(), self.is_awq) <= usize::MAX
            &&& out_features_of(self.q_dims@, self.pack(), self.is_awq) <= usize::MAX
            &&& in_features_of(self.q_dims@, self.pack(), self.is_awq)
                * self.scale_dims@[self.q_dims@.len() - 2] <= usize::MAX
        }
    }
}

/// Weights whose levels can be looked up.
pub struct CpuGptqWeights {
    pub q_weight: Vec<i32>,
    pub qzeros: Vec<i32>,
    pub scales: Vec<u32>,
    pub g_idx: Option<Vec<i32>>,
    pub experts: usize,
    pub in_features: usize,
    pub out_features: usize,
    pub groups: usize,
    pub bits: usize,
    pub is_awq: bool,
}

/// A weight: an integer level and the bit pattern of the scale that it is multiplied with.
#[derive(Clone, Copy, Debug, PartialEq, Eq, Structural)]
pub struct ScaledLevel {
    pub level: i32,
    pub scale: u32,
}

proof fn count2(dims: Seq<usize>)
    requires
        dims.len() == 2,
    ensures
        element_count(dims) == dims[0] * dims[1],
{
    let a = dims.drop_last();
    assert(a.drop_last() =~= Seq::<usize>::empty());
    assert(element_count(a.drop_last()) == 1);
    assert(element_count(a) == 1 * dims[0]);
}

proof fn count3(dims: Seq<usize>)
    requires
        dims.len() == 3,
    ensures
        element_count(dims) == dims[0] * dims[1] * dims[2],
{
    let a = dims.drop_last();
    count2(a);
    assert(element_count(dims) == element_count(a) * dims[2]);
}

impl CpuGptqWeights {
    /// The number of levels in a word.
    pub open spec fn pack(&self) -> int {
        32int / self.bits as int
    }

    /// The columns of words of the zero points.
    pub open spec fn zero_cols(&self) -> int {
        ceil_div(self.out_features as int, self.pack())
    }

    /// The tables have the sizes that the widths ask for.
    pub open spec fn wf(&self) -> bool {
        &&& is_level_width(self.bits as int)
        &&& if self.is_awq {
            &&& self.out_features as int % self.pack() == 0
            &&& self.q_weight.len() == self.experts * self.in_features * (self.out_features as int
                / self.pack())
        } else {
            &&& self.in_features as int % self.pack() == 0
            &&& self.q_weight.len() == self.experts * (self.in_features as int / self.pack())
                * self.out_features
        }
        &&& self.qzeros.len() == self.experts * self.groups * self.zero_cols()
        &&& self.scales.len() == self.experts * self.groups * self.out_features
        &&& self.in_features * self.groups <= usize::MAX
    }

    /// Every input element of every expert has its group number, if group numbers are given.
    pub open spec fn has_group_numbers(&self) -> bool {
        match self.g_idx {
            Some(g) => self.experts * self.in_features <= g.len(),
            None => true,
        }
    }

    /// Where the word with the level of a weight is.
    pub open spec fn word_index(&self, expert: int, k: int, out: int) -> int {
        if self.is_awq {
            let cols = self.out_features as int / self.pack();
            expert * self.in_features * cols + k * cols + out / self.pack()
        } else {
            let rows = self.in_features as int / self.pack();
            expert * rows * self.out_features + (k / self.pack()) * self.out_features + out
        }
    }

    /// Where in its word the level of a weight begins.
    pub open spec fn bit_offset(&self, k: int, out: int) -> int {
        if self.is_awq {
            (out % self.pack()) * self.bits
        } else {
            (k % self.pack()) * self.bits
        }
    }

    /// The level of a weight.
    pub open spec fn level_at(&self, expert: int, k: int, out: int) -> int {
        bit_field(
            self.q_weight@[self.word_index(expert, k, out)],
            self.bit_offset(k, out) as nat,
            self.bits as nat,
        )
    }

    /// The zero point of a group and an output element. GPTQ stores it reduced by one.
    pub open spec fn zero_at(&self, expert: int, group: int, out: int) -> int {
        let stored = bit_field(
            self.qzeros@[expert * self.groups * self.zero_cols() + group * self.zero_cols() + out
                / self.pack()],
            ((out % self.pack()) * self.bits) as nat,
            self.bits as nat,
        );
        if self.is_awq {
            stored
        } else {
            stored + 1
        }
    }

    /// The scale of a group and an output element.
    pub open spec fn scale_at(&self, expert: int, group: int, out: int) -> u32 {
        self.scales@[expert * self.groups * self.out_features + group * self.out_features + out]
    }

    /// The group of an input element: by its group number, or else in equal parts.
    pub open spec fn group_at(&self, expert: int, k: int) -> usize {
        match self.g_idx {
            Some(g) => if self.experts == 1 {
                g@[k] as usize
            } else {
                g@[expert * self.in_features + k] as usize
            },
            None => (k * self.groups / self.in_features as int) as usize,
        }
    }

    /// What is wrong with the group of an input element.
    pub open spec fn group_fault(&self, expert: int, k: int) -> Option<GptqError> {
        let group = self.group_at(expert, k);
        if group < self.groups {
            None
        } else {
            Some(GptqError::GroupRange { group, groups: self.groups })
        }
    }

    /// The weight between an input and an output element.
    pub open spec fn is_weight(&self, expert: int, k: int, out: int, weight: ScaledLevel) -> bool {
        let group = self.group_at(expert, k) as int;
        &&& weight.level == self.level_at(expert, k, out) - self.zero_at(expert, group, out)
        &&& weight.scale == self.scale_at(expert, group, out)
    }

    /// Weights from the tensors that hold them.
    pub fn new(params: GptqCpuParams) -> (weights: Result<Self, GptqError>)
        requires
            params.is_loaded(),
        ensures
            match weights {
                Ok(w) => {
                    let n = params.q_dims@.len();
                    &&& params.fault() is None
                    &&& w.wf()
                    &&& w.q_weight@ == params.q_weight@
                    &&& w.qzeros@ == params.qzeros@
                    &&& w.scales@ == params.scales@
                    &&& w.g_idx == params.g_idx
                    &&& w.experts == if n == 2 {
                        1
                    } else {
                        params.q_dims@[0] as int
                    }
                    &&& w.in_features == in_features_of(
                        params.q_dims@,
                        params.pack(),
                        params.is_awq,
                    )
                    &&& w.out_features == out_features_of(
                        params.q_dims@,
                        params.pack(),
                        params.is_awq,
                    )
                    &&& w.groups == params.scale_dims@[n - 2]
                    &&& w.bits == params.bits
                    &&& w.is_awq == params.is_awq
                    &&& params.is_awq ==> {
                        &&& w.in_features == params.q_dims@[n - 2]
                        &&& w.out_features * w.bits == params.q_dims@[n - 1] * 32
                    }
                    &&& !params.is_awq ==> {
                        &&& w.in_features * w.bits == params.q_dims@[n - 2] * 32
                        &&& w.out_features == params.q_dims@[n - 1]
                    }
                },
                Err(e) => params.fault() == Some(e),
            },
    {
        if params.is_marlin {
            return Err(GptqError::Marlin);
        }
        let z: &Vec<usize> = match &params.zero_dims {
            Some(z) => z,
            None => {
                return Err(GptqError::NoZeros);
            },
        };
        let bits: usize = #[verifier::truncate] (params.bits as usize);
        proof {
            let b = params.bits;
            assert(b < 0 ==> b as usize >= 0x8000_0000) by (bit_vector);
        }
        let pack: usize = pack_factor(bits)?;
        let q: &Vec<usize> = &params.q_dims;
        let s: &Vec<usize> = &params.scale_dims;
        let n: usize = q.len();
        if !((n == 2 || n == 3) && s.len() == n && z.len() == n) {
            return Err(GptqError::Rank);
        }
        let rows: usize = q[n - 2];
        let cols: usize = q[n - 1];
        let in_features: usize = if params.is_awq {
            rows
        } else {
            rows * pack
        };
        let out_features: usize = if params.is_awq {
            cols * pack
        } else {
            cols
        };
        let groups: usize = s[n - 2];
        let mut experts: usize = 1;
        if n == 3 {
            experts = q[0];
            if q[0] != s[0] || q[0] != z[0] {
                return Err(GptqError::Shape);
            }
        }
        if groups != z[n - 2] || s[n - 1] != out_features {
            return Err(GptqError::Shape);
        }
        if z[n - 1] != div_ceil(out_features, pack) {
            return Err(GptqError::ZeroShape);
        }
        proof {
            if n == 2 {
                count2(q@);
                count2(s@);
                count2(z@);
            } else {
                count3(q@);
                count3(s@);
                count3(z@);
            }
            if params.is_awq {
                assert(cols * pack * bits == cols * 32) by (nonlinear_arith)
                    requires
                        pack * bits == 32,
                ;
                vstd::arithmetic::div_mod::lemma_div_by_multiple(cols as int, pack as int);
                vstd::arithmetic::div_mod::lemma_mod_multiples_basic(cols as int, pack as int);
            } else {
                assert(rows * pack * bits == rows * 32) by (nonlinear_arith)
                    requires
                        pack * bits == 32,
                ;
                vstd::arithmetic::div_mod::lemma_div_by_multiple(rows as int, pack as int);
                vstd::arithmetic::div_mod::lemma_mod_multiples_basic(rows as int, pack as int);
            }
        }
        Ok(
            CpuGptqWeights {
                q_weight: params.q_weight,
                qzeros: params.qzeros,
                scales: params.scales,
                g_idx: params.g_idx,
                experts,
                in_features,
                out_features,
                groups,
                bits,
                is_awq: params.is_awq,
            },
        )
    }

    /// The level of a weight.
    pub fn qvalue(&self, expert: usize, k: usize, out: usize) -> (level: u32)
        requires
            self.wf(),
            expert < self.experts,
            k < self.in_features,
            out < self.out_features,
        ensures
            level == self.level_at(expert as int, k as int, out as int),
            level < pow2(self.bits as nat),
    {
        proof {
            self.pack_facts();
        }
        let pack: usize = 32 / self.bits;
        proof {
            fields_fill_a_word(self.bits as nat);
            self.word_index_is_inside(expert as int, k as int, out as int);
        }
        if self.is_awq {
            let cols: usize = self.out_features / pack;
            let base: usize = expert * self.in_features * cols;
            proof {
                assert(((out as nat) % (pack as nat)) * (self.bits as nat) + self.bits <= 32);
            }
            return unpack_bits(
                self.q_weight[base + k * cols + out / pack],
                (out % pack) * self.bits,
                self.bits,
            );
        }
        let rows: usize = self.in_features / pack;
        let base: usize = expert * rows * self.out_features;
        proof {
            assert(((k as nat) % (pack as nat)) * (self.bits as nat) + self.bits <= 32);
        }
        unpack_bits(
            self.q_weight[base + (k / pack) * self.out_features + out],
            (k % pack) * self.bits,
            self.bits,
        )
    }

    proof fn pack_facts(&self)
        requires
            is_level_width(self.bits as int),
        ensures
            self.pack() == 32int / self.bits as int,
            4 <= self.pack() <= 16,
    {
        let b = self.bits;
        assert(b == 2 || b == 4 || b == 8);
        if b == 2 {
            assert(self.pack() == 16);
        } else if b == 4 {
            assert(self.pack() == 8);
        } else {
            assert(self.pack() == 4);
        }
    }

    proof fn word_index_is_inside(&self, expert: int, k: int, out: int)
        requires
            self.wf(),
            0 <= expert < self.experts,
            0 <= k < self.in_features,
            0 <= out < self.out_features,
        ensures
            0 <= self.word_index(expert, k, out) < self.q_weight.len(),
            self.is_awq ==> {
                let cols = self.out_features as int / self.pack();
                &&& 0 <= expert * self.in_features <= self.q_weight.len()
                &&& 0 <= expert * self.in_features * cols <= self.q_weight.len()
                &&& 0 <= k * cols <= self.q_weight.len()
            },
            !self.is_awq ==> {
                let rows = self.in_features as int / self.pack();
                &&& 0 <= expert * rows <= self.q_weight.len()
                &&& 0 <= expert * rows * self.out_features <= self.q_weight.len()
                &&& 0 <= (k / self.pack()) * self.out_features <= self.q_weight.len()
            },
    {
        let pack = self.pack();
        self.pack_facts();
        if self.is_awq {
            let cols = self.out_features as int / pack;
            part_is_inside(out, self.out_features as int, pack);
            flat_index_bound(
                expert,
                self.experts as int,
                k,
                self.in_features as int,
                out / pack,
                cols,
            );
        } else {
            let rows = self.in_features as int / pack;
            part_is_inside(k, self.in_features as int, pack);
            flat_index_bound(
                expert,
                self.experts as int,
                k / pack,
                rows,
                out,
                self.out_features as int,
            );
        }
    }

    /// The zero point of a group and an output element.
    pub fn zero(&self, expert: usize, group: usize, out: usize) -> (zero: u32)
        requires
            self.wf(),
            expert < self.experts,
            group < self.groups,
            out < self.out_features,
        ensures
            zero == self.zero_at(expert as int, group as int, out as int),
            zero <= pow2(self.bits as nat),
    {
        proof {
            self.pack_facts();
        }
        let pack: usize = 32 / self.bits;
        let cols: usize = div_ceil(self.out_features, pack);
        proof {
            fields_fill_a_word(self.bits as nat);
            assert(((out as nat) % (pack as nat)) * (self.bits as nat) + self.bits <= 32);
            ceil_part_is_inside(out as int, self.out_features as int, pack as int);
            flat_index_bound(
                expert as int,
                self.experts as int,
                group as int,
                self.groups as int,
                out as int / pack as int,
                cols as int,
            );
            vstd::arithmetic::power2::lemma2_to64();
        }
        let base: usize = expert * self.groups * cols + group * cols;
        let zero: u32 = unpack_bits(
            self.qzeros[base + out / pack],
            (out % pack) * self.bits,
            self.bits,
        );
        if self.is_awq {
            zero
        } else {
            zero + 1
        }
    }

    /// The scale of a group and an output element.
    pub fn scale(&self, expert: usize, group: usize, out: usize) -> (scale: u32)
        requires
            self.wf(),
            expert < self.experts,
            group < self.groups,
            out < self.out_features,
        ensures
            scale == self.scale_at(expert as int, group as int, out as int),
    {
        proof {
            flat_index_bound(
                expert as int,
                self.experts as int,
                group as int,
                self.groups as int,
                out as int,
                self.out_features as int,
            );
        }
        self.scales[expert * self.groups * self.out_features + group * self.out_features + out]
    }

    /// The group of an input element.
    pub fn group(&self, expert: usize, k: usize) -> (group: Result<usize, GptqError>)
        requires
            self.wf(),
            self.has_group_numbers(),
            expert < self.experts,
            k < self.in_features,
        ensures
            match group {
                Ok(g) => {
                    &&& self.group_fault(expert as int, k as int) is None
                    &&& g == self.group_at(expert as int, k as int)
                    &&& g < self.groups
                    &&& self.g_idx is None ==> g * self.in_features <= k * self.groups < (g + 1)
                        * self.in_features
                    &&& self.g_idx matches Some(numbers) ==> numbers@[expert * self.in_features + k]
                        >= 0 ==> g == numbers@[expert * self.in_features + k]
                },
                Err(e) => self.group_fault(expert as int, k as int) == Some(e),
            },
    {
        proof {
            assert(k * self.groups <= self.in_features * self.groups) by (nonlinear_arith)
                requires
                    k <= self.in_features,
            ;
            assert(expert * self.in_features + k < self.experts * self.in_features && 0 <= expert
                * self.in_features) by (nonlinear_arith)
                requires
                    expert + 1 <= self.experts,
                    0 <= k < self.in_features,
            ;
        }
        let group: usize = match &self.g_idx {
            Some(g) => if self.experts == 1 {
                #[verifier::truncate]
                (g[k] as usize)
            } else {
                #[verifier::truncate]
                (g[expert * self.in_features + k] as usize)
            },
            None => k * self.groups / self.in_features,
        };
        if group >= self.groups {
            return Err(GptqError::GroupRange { group, groups: self.groups });
        }
        proof {
            if self.g_idx is Some && self.experts == 1 {
                assert(expert * self.in_features + k == k) by (nonlinear_arith)
                    requires
                        expert == 0,
                ;
            }
            part_of_product(k as int, self.groups as int, self.in_features as int);
        }
        Ok(group)
    }

    /// The weight between an input and an output element.
    pub fn dequant_value(&self, expert: usize, k: usize, out: usize) -> (weight: Result<
        ScaledLevel,
        GptqError,
    >)
        requires
            self.wf(),
            self.has_group_numbers(),
            expert < self.experts,
            k < self.in_features,
            out < self.out_features,
        ensures
            match weight {
                Ok(w) => {
                    &&& self.group_fault(expert as int, k as int) is None
                    &&& self.is_weight(expert as int, k as int, out as int, w)
                },
                Err(e) => self.group_fault(expert as int, k as int) == Some(e),
            },
    {
        let group: usize = self.group(expert, k)?;
        let level: u32 = self.qvalue(expert, k, out);
        let zero: u32 = self.zero(expert, group, out);
        proof {
            vstd::arithmetic::power2::lemma2_to64();
        }
        Ok(
            ScaledLevel {
                level: level as i32 - zero as i32,
                scale: self.scale(expert, group, out),
            },
        )
    }

    /// What is wrong with the group of weight number `i`, in the order experts, outputs, inputs.
    pub open spec fn fault_of(&self, i: int) -> Option<GptqError> {
        let row = i / self.in_features as int;
        self.group_fault(row / self.out_features as int, i % self.in_features as int)
    }

    /// Whether weight number `i` has a group, and is this.
    pub open spec fn weighs(&self, i: int, weight: ScaledLevel) -> bool {
        let row = i / self.in_features as int;
        &&& self.fault_of(i) is None
        &&& self.is_weight(
            row / self.out_features as int,
            i % self.in_features as int,
            row % self.out_features as int,
            weight,
        )
    }

    /// All weights, in the order experts, outputs, inputs.
    pub fn dequantize(&self) -> (weights: Result<Vec<ScaledLevel>, GptqError>)
        requires
            self.wf(),
            self.has_group_numbers(),
            self.experts * self.out_features * self.in_features <= usize::MAX,
            self.out_features * self.in_features <= usize::MAX,
            self.experts * self.out_features <= usize::MAX,
        ensures
            match weights {
                Ok(w) => {
                    &&& w@.len() == self.experts * self.out_features * self.in_features
                    &&& forall|i: int| 0 <= i < w@.len() ==> self.weighs(i, #[trigger] w@[i])
                },
                Err(e) => exists|i: int|
                    {
                        &&& 0 <= i < self.experts * self.out_features * self.in_features
                        &&& #[trigger] self.fault_of(i) == Some(e)
                        &&& forall|j: int| 0 <= j < i ==> #[trigger] self.fault_of(j) is None
                    },
            },
    {
        let total: usize = self.experts * self.out_features * self.in_features;
        let mut weights: Vec<ScaledLevel> = Vec::new();
        let mut i: usize = 0;
        while i < total
            invariant
                i <= total,
                self.wf(),
                self.has_group_numbers(),
                total == self.experts * self.out_features * self.in_features,
                weights@.len() == i,
                forall|j: int| 0 <= j < i ==> self.weighs(j, #[trigger] weights@[j]),
            decreases total - i,
        {
            proof {
                weight_number_is_inside(
                    i as int,
                    self.experts as int,
                    self.out_features as int,
                    self.in_features as int,
                );
            }
            let row: usize = i / self.in_features;
            match self.dequant_value(
                row / self.out_features,
                i % self.in_features,
                row % self.out_features,
            ) {
                Ok(weight) => {
                    let ghost before = weights@;
                    weights.push(weight);
                    assert forall|j: int| 0 <= j < i + 1 implies self.weighs(
                        j,
                        #[trigger] weights@[j],
                    ) by {
                        if j < i {
                            assert(self.weighs(j, before[j]));
                        }
                    }
                },
                Err(e) => {
                    assert(self.fault_of(i as int) == Some(e));
                    assert forall|j: int| 0 <= j < i implies #[trigger] self.fault_of(j) is None by {
                        assert(self.weighs(j, weights@[j]));
                    }
                    return Err(e);
                },
            }
            i += 1;
        }
        Ok(weights)
    }

    /// The shape of all weights.
    pub fn weight_shape(&self) -> (dims: Vec<usize>)
        ensures
            dims@ == if self.experts == 1 {
                seq![self.out_features, self.in_features]
            } else {
                seq![self.experts, self.out_features, self.in_features]
            },
    {
        if self.experts == 1 {
            vec![self.out_features, self.in_features]
        } else {
            vec![self.experts, self.out_features, self.in_features]
        }
    }
}

proof fn part_is_inside(i: int, n: int, pack: int)
    requires
        0 <= i < n,
        pack > 0,
        n % pack == 0,
    ensures
        0 <= i / pack < n / pack,
{
    vstd::arithmetic::div_mod::lemma_fundamental_div_mod(n, pack);
    vstd::arithmetic::div_mod::lemma_fundamental_div_mod(i, pack);
    assert(0 <= i / pack < n / pack) by (nonlinear_arith)
        requires
            0 <= i < n,
            pack > 0,
            n == pack * (n / pack),
            i == pack * (i / pack) + i % pack,
            0 <= i % pack < pack,
    ;
}

proof fn ceil_part_is_inside(i: int, n: int, pack: int)
    requires
        0 <= i < n,
        pack > 0,
    ensures
        0 <= i / pack < ceil_div(n, pack),
{
    let m = n + pack - 1;
    vstd::arithmetic::div_mod::lemma_fundamental_div_mod(m, pack);
    vstd::arithmetic::div_mod::lemma_fundamental_div_mod(i, pack);
    assert(0 <= i / pack < m / pack) by (nonlinear_arith)
        requires
            0 <= i < n,
            pack > 0,
            m == n + pack - 1,
            m == pack * (m / pack) + m % pack,
            0 <= m % pack < pack,
            i == pack * (i / pack) + i % pack,
            0 <= i % pack < pack,
    ;
}

proof fn weight_number_is_inside(i: int, experts: int, outs: int, ins: int)
    requires
        experts >= 0,
        outs >= 0,
        ins >= 0,
        0 <= i < experts * outs * ins,
    ensures
        ins > 0,
        outs > 0,
        0 <= i / ins < experts * outs,
        0 <= i / ins / outs < experts,
        0 <= i % ins < ins,
        0 <= (i / ins) % outs < outs,
{
    assert(ins > 0 && outs > 0) by (nonlinear_arith)
        requires
            experts >= 0,
            outs >= 0,
            ins >= 0,
            0 < experts * outs * ins,
    ;
    let row = i / ins;
    vstd::arithmetic::div_mod::lemma_fundamental_div_mod(i, ins);
    assert(0 <= row < experts * outs) by (nonlinear_arith)
        requires
            0 <= i < experts * outs * ins,
            ins > 0,
            i == ins * row + i % ins,
            0 <= i % ins < ins,
    ;
    vstd::arithmetic::div_mod::lemma_fundamental_div_mod(row, outs);
    assert(0 <= row / outs < experts) by (nonlinear_arith)
        requires
            0 <= row < experts * outs,
            outs > 0,
            row == outs * (row / outs) + row % outs,
            0 <= row % outs < outs,
    ;
}

proof fn part_of_product(k: int, groups: int, ins: int)
    requires
        ins > 0,
    ensures
        (k * groups / ins) * ins <= k * groups < (k * groups / ins + 1) * ins,
{
    let product = k * groups;
    vstd::arithmetic::div_mod::lemma_fundamental_div_mod(product, ins);
    assert((product / ins) * ins <= product < (product / ins + 1) * ins) by (nonlinear_arith)
        requires
            product == ins * (product / ins) + product % ins,
            0 <= product % ins < ins,
    ;
}

/// Without group numbers the groups are consecutive runs of equal length: where the groups divide
/// the inputs into runs of `size`, input number `k` of an expert is in group `g` exactly if it
/// lies in the `g`-th run.
pub proof fn groups_are_consecutive_runs(
    weights: CpuGptqWeights,
    expert: int,
    k: int,
    g: int,
    size: int,
)
    requires
        weights.g_idx is None,
        0 <= k < weights.in_features,
        0 <= g < weights.groups,
        weights.in_features == weights.groups * size,
    ensures
        weights.group_at(expert, k) == g <==> g * size <= k < (g + 1) * size,
        weights.group_fault(expert, k) is None,
{
    let ins = weights.in_features as int;
    let groups = weights.groups as int;
    let part = k * groups / ins;
    part_of_product(k, groups, ins);
    assert(0 <= k * groups < groups * ins) by (nonlinear_arith)
        requires
            0 <= k < ins,
            groups > 0,
    ;
    assert(0 <= part < groups) by (nonlinear_arith)
        requires
            part * ins <= k * groups < (part + 1) * ins,
            0 <= k * groups < groups * ins,
            ins > 0,
    ;
    assert(part * size <= k < (part + 1) * size) by (nonlinear_arith)
        requires
            part * ins <= k * groups < (part + 1) * ins,
            ins == groups * size,
            groups > 0,
    ;
    if g * size <= k < (g + 1) * size {
        assert(g == part) by (nonlinear_arith)
            requires
                g * size <= k < (g + 1) * size,
                part * size <= k < (part + 1) * size,
        ;
    }
}

/// Without group numbers the group never falls as the inputs go on; the first input is in the
/// first group, and the last in the last if no group is empty.
pub proof fn groups_rise(weights: CpuGptqWeights, expert: int, k: int, later: int)
    requires
        weights.g_idx is None,
        0 <= k <= later < weights.in_features,
    ensures
        weights.group_at(expert, k) <= weights.group_at(expert, later),
        weights.groups > 0 ==> weights.group_at(expert, later) < weights.groups,
        weights.group_at(expert, 0) == 0,
        0 < weights.groups <= weights.in_features ==> weights.group_at(
            expert,
            weights.in_features - 1,
        ) == weights.groups - 1,
{
    let ins = weights.in_features as int;
    let groups = weights.groups as int;
    let a = k * groups / ins;
    let b = later * groups / ins;
    part_of_product(k, groups, ins);
    part_of_product(later, groups, ins);
    assert(0 <= k * groups <= later * groups <= ins * groups) by (nonlinear_arith)
        requires
            0 <= k <= later < ins,
            groups >= 0,
    ;
    assert(0 <= a <= b <= groups) by (nonlinear_arith)
        requires
            a * ins <= k * groups < (a + 1) * ins,
            b * ins <= later * groups < (b + 1) * ins,
            0 <= k * groups <= later * groups <= ins * groups,
            ins > 0,
    ;
    if groups > 0 {
        assert(b < groups) by (nonlinear_arith)
            requires
                b * ins <= later * groups,
                later < ins,
                groups > 0,
                ins > 0,
        ;
    }
    assert(0 * groups / ins == 0) by (nonlinear_arith)
        requires
            ins > 0,
    ;
    if 0 < groups <= ins {
        let c = (ins - 1) * groups / ins;
        part_of_product(ins - 1, groups, ins);
        assert(c == groups - 1) by (nonlinear_arith)
            requires
                c * ins <= (ins - 1) * groups < (c + 1) * ins,
                0 < groups <= ins,
        ;
    }
}

/// A group number that is there decides: that of input `k` of an expert is number
/// `expert * in_features + k`, and it is taken if such a group is there.
pub proof fn group_numbers_decide(weights: CpuGptqWeights, expert: int, k: int)
    requires
        0 <= expert < weights.experts,
        weights.g_idx is Some,
        weights.g_idx->0@[expert * weights.in_features + k] >= 0,
    ensures
        weights.group_at(expert, k) == weights.g_idx->0@[expert * weights.in_features + k],
        weights.group_fault(expert, k) is None <==> weights.g_idx->0@[expert * weights.in_features
            + k] < weights.groups,
{
    if weights.experts == 1 {
        assert(expert * weights.in_features + k == k) by (nonlinear_arith)
            requires
                expert == 0,
        ;
    }
}

/// A weight of a layer in groups of `size` inputs: its level is counted from the zero point, and
/// scaled by the scale, of the group in whose run its input lies.
pub proof fn weight_takes_its_own_group(
    weights: CpuGptqWeights,
    expert: int,
    k: int,
    out: int,
    g: int,
    size: int,
    weight: ScaledLevel,
)
    requires
        weights.g_idx is None,
        0 <= k < weights.in_features,
        0 <= g < weights.groups,
        weights.in_features == weights.groups * size,
        g * size <= k < (g + 1) * size,
        weights.is_weight(expert, k, out, weight),
    ensures
        weight.scale == weights.scales@[(expert * weights.groups + g) * weights.out_features + out],
        weight.level + weights.zero_at(expert, g, out) == weights.level_at(expert, k, out),
{
    groups_are_consecutive_runs(weights, expert, k, g, size);
    let groups = weights.groups as int;
    let outs = weights.out_features as int;
    assert((expert * groups + g) * outs + out == expert * groups * outs + g * outs + out)
        by (nonlinear_arith);
}

/// Levels are packed from the low bits of a word up: GPTQ packs consecutive inputs of an output,
/// so field `j` of the word in row `r` and column `out` is the level of input `r * pack + j`. AWQ
/// packs consecutive outputs of an input, so field `j` of the word in row `k` and column `c` is
/// the level of output `c * pack + j`.
pub proof fn levels_are_packed_in_order(
    weights: CpuGptqWeights,
    expert: int,
    row: int,
    col: int,
    j: int,
    pack: int,
)
    requires
        weights.wf(),
        pack * weights.bits == 32,
        0 <= expert < weights.experts,
        0 <= row,
        0 <= col,
        0 <= j < pack,
    ensures
        weights.is_awq ==> weights.level_at(expert, row, col * pack + j) == bit_field(
            weights.q_weight@[(expert * weights.in_features + row) * (weights.out_features as int
                / pack) + col],
            (j * weights.bits) as nat,
            weights.bits as nat,
        ),
        !weights.is_awq ==> weights.level_at(expert, row * pack + j, col) == bit_field(
            weights.q_weight@[(expert * (weights.in_features as int / pack) + row)
                * weights.out_features + col],
            (j * weights.bits) as nat,
            weights.bits as nat,
        ),
{
    weights.pack_facts();
    vstd::arithmetic::div_mod::lemma_fundamental_div_mod_converse(
        32,
        weights.bits as int,
        pack,
        0,
    );
    if weights.is_awq {
        let cols = weights.out_features as int / pack;
        let ins = weights.in_features as int;
        vstd::arithmetic::div_mod::lemma_fundamental_div_mod_converse(col * pack + j, pack, col, j);
        assert((expert * ins + row) * cols + col == expert * ins * cols + row * cols + col)
            by (nonlinear_arith);
    } else {
        let rows = weights.in_features as int / pack;
        let outs = weights.out_features as int;
        vstd::arithmetic::div_mod::lemma_fundamental_div_mod_converse(row * pack + j, pack, row, j);
        assert((expert * rows + row) * outs + col == expert * rows * outs + row * outs + col)
            by (nonlinear_arith);
    }
}

/// Zero points are packed like the levels of AWQ, in either format: field `j` of the word in row
/// `g` and column `c` belongs to output `c * pack + j` of group `g`. AWQ stores the zero point
/// itself, GPTQ one less.
pub proof fn zeros_are_packed_in_order(
    weights: CpuGptqWeights,
    expert: int,
    g: int,
    col: int,
    j: int,
    pack: int,
    cols: int,
)
    requires
        weights.wf(),
        pack * weights.bits == 32,
        (cols - 1) * pack < weights.out_features <= cols * pack,
        0 <= col,
        0 <= j < pack,
    ensures
        weights.zero_at(expert, g, col * pack + j) == bit_field(
            weights.qzeros@[(expert * weights.groups + g) * cols + col],
            (j * weights.bits) as nat,
            weights.bits as nat,
        ) + if weights.is_awq {
            0int
        } else {
            1int
        },
{
    weights.pack_facts();
    vstd::arithmetic::div_mod::lemma_fundamental_div_mod_converse(
        32,
        weights.bits as int,
        pack,
        0,
    );
    let groups = weights.groups as int;
    let total = weights.out_features + pack - 1;
    vstd::arithmetic::div_mod::lemma_fundamental_div_mod(total, pack);
    assert(cols == total / pack) by (nonlinear_arith)
        requires
            pack > 0,
            total == pack * (total / pack) + total % pack,
            0 <= total % pack < pack,
            (cols - 1) * pack < total - pack + 1 <= cols * pack,
    ;
    vstd::arithmetic::div_mod::lemma_fundamental_div_mod_converse(col * pack + j, pack, col, j);
    assert((expert * groups + g) * cols + col == expert * groups * cols + g * cols + col)
        by (nonlinear_arith);
}

/// All weights stand expert by expert, output by output, input by input.
pub proof fn weights_stand_row_by_row(
    weights: CpuGptqWeights,
    expert: int,
    out: int,
    k: int,
    weight: ScaledLevel,
)
    requires
        0 <= out < weights.out_features,
        0 <= k < weights.in_features,
    ensures
        weights.weighs((expert * weights.out_features + out) * weights.in_features + k, weight)
            <==> weights.group_fault(expert, k) is None && weights.is_weight(
            expert,
            k,
            out,
            weight,
        ),
        weights.fault_of((expert * weights.out_features + out) * weights.in_features + k)
            == weights.group_fault(expert, k),
{
    let ins = weights.in_features as int;
    let outs = weights.out_features as int;
    let row = expert * outs + out;
    vstd::arithmetic::div_mod::lemma_fundamental_div_mod_converse(row * ins + k, ins, row, k);
    vstd::arithmetic::div_mod::lemma_fundamental_div_mod_converse(row, outs, expert, out);
}

/// What decoding gives for input `k` of an output is scaled by the scale, and counted from the
/// zero point, of the run of `size` inputs that `k` lies in.
pub proof fn decoded_weight_takes_its_own_group(
    weights: CpuGptqWeights,
    expert: int,
    k: int,
    out: int,
    g: int,
    size: int,
    decoded: Seq<ScaledLevel>,
)
    requires
        weights.g_idx is None,
        0 <= k < weights.in_features,
        0 <= out < weights.out_features,
        0 <= g < weights.groups,
        weights.in_features == weights.groups * size,
        g * size <= k < (g + 1) * size,
        forall|i: int| 0 <= i < decoded.len() ==> weights.weighs(i, #[trigger] decoded[i]),
        0 <= (expert * weights.out_features + out) * weights.in_features + k < decoded.len(),
    ensures
        ({
            let weight = decoded[(expert * weights.out_features + out) * weights.in_features + k];
            &&& weight.scale == weights.scales@[(expert * weights.groups + g)
                * weights.out_features + out]
            &&& weight.level == weights.level_at(expert, k, out) - weights.zero_at(expert, g, out)
        }),
{
    let i = (expert * weights.out_features + out) * weights.in_features + k;
    assert(weights.weighs(i, decoded[i]));
    weights_stand_row_by_row(weights, expert, out, k, decoded[i]);
    weight_takes_its_own_group(weights, expert, k, out, g, size, decoded[i]);
}

/// Tensors that go together are taken: the levels, the zero points and the scales of as many
/// experts, zero points and scales of as many groups, scales for each output, and words enough
/// for the zero points of all outputs.
pub proof fn matching_tensors_are_taken(params: GptqCpuParams, pack: int, groups: usize)
    requires
        !params.is_marlin,
        params.zero_dims is Some,
        params.bits == 2 || params.bits == 4 || params.bits == 8,
        pack * params.bits == 32,
        params.q_dims@.len() == 2 || params.q_dims@.len() == 3,
        params.scale_dims@.len() == params.q_dims@.len(),
        params.zero_dims->0@.len() == params.q_dims@.len(),
        params.q_dims@.len() == 3 ==> params.scale_dims@[0] == params.q_dims@[0]
            && params.zero_dims->0@[0] == params.q_dims@[0],
        params.scale_dims@[params.q_dims@.len() - 2] == groups,
        params.zero_dims->0@[params.q_dims@.len() - 2] == groups,
    ensures
        ({
            let n = params.q_dims@.len();
            let outs = params.q_dims@[n - 1] * if params.is_awq {
                pack
            } else {
                1int
            };
            let words = params.zero_dims->0@[n - 1];
            params.fault() is None <==> params.scale_dims@[n - 1] == outs && (words - 1) * pack
                < outs <= words * pack
        }),
{
    let n = params.q_dims@.len();
    let b = params.bits;
    assert(pack > 0 && 32 == pack * b);
    vstd::arithmetic::div_mod::lemma_fundamental_div_mod_converse(32, b as int, pack, 0);
    let outs = out_features_of(params.q_dims@, pack, params.is_awq);
    assert(outs == params.q_dims@[n - 1] * if params.is_awq {
        pack
    } else {
        1int
    });
    let words = params.zero_dims->0@[n - 1] as int;
    let total = outs + pack - 1;
    vstd::arithmetic::div_mod::lemma_fundamental_div_mod(total, pack);
    assert(words == total / pack <==> (words - 1) * pack < total - pack + 1 <= words * pack)
        by (nonlinear_arith)
        requires
            pack > 0,
            total == pack * (total / pack) + total % pack,
            0 <= total % pack < pack,
    ;
}

/// Without group numbers every input element has a group, if there are groups at all.
pub proof fn equal_parts_have_groups(weights: CpuGptqWeights, expert: int, k: int)
    requires
        weights.wf(),
        weights.g_idx is None,
        weights.groups > 0,
        0 <= k < weights.in_features,
    ensures
        weights.group_fault(expert, k) is None,
{
    let ins = weights.in_features as int;
    let groups = weights.groups as int;
    let product = k * groups;
    vstd::arithmetic::div_mod::lemma_fundamental_div_mod(product, ins);
    assert(0 <= product && product < groups * ins) by (nonlinear_arith)
        requires
            product == k * groups,
            0 <= k < ins,
            groups > 0,
    ;
    assert(0 <= product / ins < groups) by (nonlinear_arith)
        requires
            0 <= product < groups * ins,
            ins > 0,
            product == ins * (product / ins) + product % ins,
            0 <= product % ins < ins,
    ;
}

/// Two weights of an expert share no bits: their levels are in different words, or begin at
/// different places of one word, at least the width of a level apart.
pub proof fn weights_share_no_bits(
    weights: CpuGptqWeights,
    expert: int,
    k: int,
    out: int,
    k2: int,
    out2: int,
)
    requires
        weights.wf(),
        0 <= expert < weights.experts,
        0 <= k < weights.in_features,
        0 <= k2 < weights.in_features,
        0 <= out < weights.out_features,
        0 <= out2 < weights.out_features,
        weights.word_index(expert, k, out) == weights.word_index(expert, k2, out2),
        weights.bit_offset(k, out) < weights.bit_offset(k2, out2) + weights.bits,
        weights.bit_offset(k2, out2) < weights.bit_offset(k, out) + weights.bits,
    ensures
        k == k2,
        out == out2,
{
    let pack = weights.pack();
    let bits = weights.bits as int;
    weights.pack_facts();
    let (packed, packed2) = if weights.is_awq {
        (out, out2)
    } else {
        (k, k2)
    };
    vstd::arithmetic::div_mod::lemma_fundamental_div_mod(packed, pack);
    vstd::arithmetic::div_mod::lemma_fundamental_div_mod(packed2, pack);
    assert(packed % pack == packed2 % pack) by (nonlinear_arith)
        requires
            (packed % pack) * bits < (packed2 % pack) * bits + bits,
            (packed2 % pack) * bits < (packed % pack) * bits + bits,
            bits > 0,
    ;
    if weights.is_awq {
        let cols = weights.out_features as int / pack;
        part_is_inside(out, weights.out_features as int, pack);
        part_is_inside(out2, weights.out_features as int, pack);
        same_cell(k, out / pack, k2, out2 / pack, cols);
    } else {
        let cols = weights.out_features as int;
        same_cell(k / pack, out, k2 / pack, out2, cols);
    }
}

proof fn same_cell(a: int, b: int, a2: int, b2: int, cols: int)
    requires
        a * cols + b == a2 * cols + b2,
        0 <= b < cols,
        0 <= b2 < cols,
    ensures
        a == a2,
        b == b2,
{
    assert(a == a2) by (nonlinear_arith)
        requires
            a * cols + b == a2 * cols + b2,
            0 <= b < cols,
            0 <= b2 < cols,
    ;
}

/// Weights that cannot be decoded are refused: those of the Marlin kernels first, then those
/// without zero points, then those with levels of other widths than two, four and eight bits.
pub proof fn other_weights_are_refused(params: GptqCpuParams)
    ensures
        params.fault() == Some(GptqError::Marlin) <==> params.is_marlin,
        params.fault() == Some(GptqError::NoZeros) <==> !params.is_marlin
            && params.zero_dims is None,
        !params.is_marlin && params.zero_dims is Some && params.bits != 2 && params.bits != 4
            && params.bits != 8 ==> params.fault() == Some(
            GptqError::Bits { bits: params.bits as usize },
        ),
        params.fault() is None ==> params.bits == 2 || params.bits == 4 || params.bits == 8,
{
}

/// Tensors of other ranks, of ranks that differ, or with different numbers of experts or groups
/// are refused.
pub proof fn tensors_that_differ_are_refused(params: GptqCpuParams)
    requires
        params.fault() is None,
    ensures
        ({
            let (q, s, z) = (params.q_dims@, params.scale_dims@, params.zero_dims->0@);
            &&& q.len() == 2 || q.len() == 3
            &&& s.len() == q.len() && z.len() == q.len()
            &&& q.len() == 3 ==> s[0] == q[0] && z[0] == q[0]
            &&& s[q.len() - 2] == z[q.len() - 2]
        }),
{
}

/// The words of the levels hold all weights of a matrix: AWQ packs them along the outputs, GPTQ
/// along the inputs.
pub proof fn words_hold_all_levels(rows: usize, cols: usize, experts: usize, pack: int, is_awq: bool)
    ensures
        ({
            let (ins, outs) = (
                in_features_of(seq![rows, cols], pack, is_awq),
                out_features_of(seq![rows, cols], pack, is_awq),
            );
            &&& is_awq ==> ins == rows && outs == cols * pack
            &&& !is_awq ==> ins == rows * pack && outs == cols
            &&& in_features_of(seq![experts, rows, cols], pack, is_awq) == ins
            &&& out_features_of(seq![experts, rows, cols], pack, is_awq) == outs
        }),
{
}

/// An input element whose group there is not is named with its group and the number of groups.
pub proof fn missing_groups_are_named(weights: CpuGptqWeights, expert: int, k: int, group: usize)
    requires
        weights.group_at(expert, k) == group,
    ensures
        group < weights.groups <==> weights.group_fault(expert, k) is None,
        group >= weights.groups ==> weights.group_fault(expert, k) == Some(
            GptqError::GroupRange { group, groups: weights.groups },
        ),
{
}

} // verus!
