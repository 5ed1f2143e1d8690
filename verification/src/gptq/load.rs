//! The tensors that a layer is loaded from, and their shapes.
use crate::gptq::fields::{is_level_width, pack_factor, GptqError};
use crate::gptq::weights::{dims_fault, in_features_of, out_features_of};
use crate::text::same_text;
use vstd::prelude::*;

verus! {

/// The shape of a matrix.
#[derive(Clone, Copy, Debug, PartialEq, Eq, Structural)]
pub struct MatrixDims {
    pub rows: usize,
    pub cols: usize,
}

/// The shapes of the tensors of a layer.
#[derive(Clone, Copy, Debug, PartialEq, Eq, Structural)]
pub struct LayerShapes {
    pub qweight: MatrixDims,
    pub qzeros: MatrixDims,
    pub scales: MatrixDims,
    /// The number of group numbers; AWQ has none.
    pub g_idx: Option<usize>,
}

/// The shapes of a layer with `pack` levels in a word.
pub open spec fn layer_shapes(
    in_dim: usize,
    out_dim: usize,
    pack: int,
    group_size: usize,
    is_awq: bool,
) -> LayerShapes {
    let groups = (in_dim as int / group_size as int) as usize;
    LayerShapes {
        qweight: if is_awq {
            MatrixDims { rows: in_dim, cols: (out_dim as int / pack) as usize }
        } else {
            MatrixDims { rows: (in_dim as int / pack) as usize, cols: out_dim }
        },
        qzeros: MatrixDims { rows: groups, cols: (out_dim as int / pack) as usize },
        scales: MatrixDims { rows: groups, cols: out_dim },
        g_idx: if is_awq {
            None
        } else {
            Some(in_dim)
        },
    }
}

fn shapes_of(in_dim: usize, out_dim: usize, pack: usize, group_size: usize, is_awq: bool) -> (shapes:
    LayerShapes)
    requires
        pack > 0,
        group_size > 0,
    ensures
        shapes == layer_shapes(in_dim, out_dim, pack as int, group_size, is_awq),
{
    let groups: usize = in_dim / group_size;
    LayerShapes {
        qweight: if is_awq {
            MatrixDims { rows: in_dim, cols: out_dim / pack }
        } else {
            MatrixDims { rows: in_dim / pack, cols: out_dim }
        },
        qzeros: MatrixDims { rows: groups, cols: out_dim / pack },
        scales: MatrixDims { rows: groups, cols: out_dim },
        g_idx: if is_awq {
            None
        } else {
            Some(in_dim)
        },
    }
}

/// The tensors that a layer cannot do without.
pub open spec fn required_names(is_awq: bool) -> Seq<Seq<char>> {
    if is_awq {
        seq!["qweight"@, "qzeros"@, "scales"@]
    } else {
        seq!["qweight"@, "qzeros"@, "scales"@, "g_idx"@]
    }
}

/// The tensors that a layer cannot do without.
pub fn required_tensors(is_awq: bool) -> (names: Vec<&'static str>)
    ensures
        names@.len() == required_names(is_awq).len(),
        forall|i: int| 0 <= i < names@.len() ==> (#[trigger] names@[i])@ == required_names(is_awq)[i],
{
    let mut names: Vec<&'static str> = vec!["qweight", "qzeros", "scales"];
    if !is_awq {
        names.push("g_idx");
    }
    names
}

/// The shapes of a single layer.
pub fn gptq_linear(in_dim: usize, out_dim: usize, bits: usize, group_size: usize, is_awq: bool) -> (shapes:
    LayerShapes)
    requires
        0 < bits <= 32,
        group_size > 0,
    ensures
        shapes == layer_shapes(in_dim, out_dim, 32int / bits as int, group_size, is_awq),
{
    proof {
        assert(32int / bits as int >= 1) by (nonlinear_arith)
            requires
                0 < bits <= 32,
        ;
    }
    shapes_of(in_dim, out_dim, 32 / bits, group_size, is_awq)
}

/// The text of a checkpoint format, if one is given.
pub open spec fn format_text(format: Option<&str>) -> Option<Seq<char>> {
    match format {
        Some(f) => Some(f@),
        None => None,
    }
}

/// What is wrong with loading experts.
pub open spec fn moe_fault(bias: bool, format: Option<Seq<char>>, bits: usize) -> Option<GptqError> {
    if bias {
        Some(GptqError::Bias)
    } else if format == Some("marlin"@) {
        Some(GptqError::Marlin)
    } else if !is_level_width(bits as int) {
        Some(GptqError::Bits { bits })
    } else {
        None
    }
}

/// The shapes of each of a number of experts.
pub fn gptq_moe_linear(
    in_dim: usize,
    out_dim: usize,
    bits: usize,
    group_size: usize,
    checkpoint_format: Option<&str>,
    is_awq: bool,
    bias: bool,
) -> (shapes: Result<LayerShapes, GptqError>)
    requires
        moe_fault(bias, format_text(checkpoint_format), bits) is None ==> group_size > 0,
    ensures
        ({
            let format = format_text(checkpoint_format);
            match shapes {
                Ok(s) => {
                    &&& moe_fault(bias, format, bits) is None
                    &&& s == layer_shapes(in_dim, out_dim, 32int / bits as int, group_size, is_awq)
                },
                Err(e) => moe_fault(bias, format, bits) == Some(e),
            }
        }),
{
    if bias {
        return Err(GptqError::Bias);
    }
    if let Some(format) = checkpoint_format {
        if same_text(format, "marlin") {
            return Err(GptqError::Marlin);
        }
    }
    let pack: usize = pack_factor(bits)?;
    Ok(shapes_of(in_dim, out_dim, pack, group_size, is_awq))
}

/// Tensors of the shapes that a layer is loaded with go together, and hold a layer of the widths
/// that were asked for, with a row of scales and of zero points for each group of inputs; GPTQ
/// has a group number for each input.
pub proof fn loaded_tensors_make_the_layer(
    in_dim: usize,
    out_dim: usize,
    pack: int,
    group_size: usize,
    is_awq: bool,
)
    requires
        pack > 0,
        group_size > 0,
        in_dim as int % group_size as int == 0,
        out_dim as int % pack == 0,
        in_dim as int % pack == 0,
    ensures
        ({
            let shapes = layer_shapes(in_dim, out_dim, pack, group_size, is_awq);
            let q = seq![shapes.qweight.rows, shapes.qweight.cols];
            let s = seq![shapes.scales.rows, shapes.scales.cols];
            let z = seq![shapes.qzeros.rows, shapes.qzeros.cols];
            &&& dims_fault(q, s, z, pack, is_awq) is None
            &&& in_features_of(q, pack, is_awq) == in_dim
            &&& out_features_of(q, pack, is_awq) == out_dim
            &&& shapes.scales.rows * group_size == in_dim
            &&& shapes.qzeros.rows * group_size == in_dim
            &&& shapes.scales.cols == out_dim
            &&& shapes.g_idx is Some <==> !is_awq
            &&& !is_awq ==> shapes.g_idx == Some(in_dim) && shapes.qweight.rows * pack == in_dim
            &&& is_awq ==> shapes.qweight.rows == in_dim
        }),
{
    let ins = in_dim as int;
    let outs = out_dim as int;
    let gs = group_size as int;
    vstd::arithmetic::div_mod::lemma_fundamental_div_mod(ins, gs);
    vstd::arithmetic::div_mod::lemma_fundamental_div_mod(outs, pack);
    vstd::arithmetic::div_mod::lemma_fundamental_div_mod(ins, pack);
    let words = outs / pack;
    assert(0 <= ins / gs <= ins && 0 <= ins / pack <= ins && 0 <= words <= outs)
        by (nonlinear_arith)
        requires
            ins >= 0,
            outs >= 0,
            gs >= 1,
            pack >= 1,
            words == outs / pack,
    ;
    assert((ins / gs) * gs == ins && (ins / pack) * pack == ins && words * pack == outs)
        by (nonlinear_arith)
        requires
            ins == gs * (ins / gs),
            ins == pack * (ins / pack),
            outs == pack * words,
    ;
    vstd::arithmetic::div_mod::lemma_fundamental_div_mod_converse(
        outs + pack - 1,
        pack,
        words,
        pack - 1,
    );
}

/// A layer cannot do without levels, zero points and scales, nor a GPTQ layer without group
/// numbers; nothing else is asked for.
pub proof fn group_numbers_are_asked_of_gptq_only(is_awq: bool)
    ensures
        required_names(is_awq).contains("qweight"@),
        required_names(is_awq).contains("qzeros"@),
        required_names(is_awq).contains("scales"@),
        required_names(is_awq).contains("g_idx"@) <==> !is_awq,
        required_names(is_awq).len() == if is_awq {
            3int
        } else {
            4int
        },
{
    let names = required_names(is_awq);
    assert(names[0] == "qweight"@ && names[1] == "qzeros"@ && names[2] == "scales"@);
    if is_awq {
        reveal_strlit("qweight");
        reveal_strlit("qzeros");
        reveal_strlit("scales");
        reveal_strlit("g_idx");
        assert("qweight"@.len() != "g_idx"@.len());
        assert("qzeros"@.len() != "g_idx"@.len());
        assert("scales"@.len() != "g_idx"@.len());
    } else {
        assert(names[3] == "g_idx"@);
    }
}

/// Experts are loaded exactly without a bias, in any format but that of the Marlin kernels, and
/// with levels of two, four or eight bits; what is wrong is named in this order.
pub proof fn experts_that_are_loaded(bias: bool, format: Option<Seq<char>>, bits: usize)
    ensures
        moe_fault(bias, format, bits) is None <==> !bias && format != Some("marlin"@) && (bits == 2
            || bits == 4 || bits == 8),
        moe_fault(bias, format, bits) == Some(GptqError::Bias) <==> bias,
        moe_fault(bias, format, bits) == Some(GptqError::Marlin) <==> !bias && format == Some(
            "marlin"@,
        ),
{
}

} // verus!
