use quantcore::gptq::fields::{pack_factor, signed_to_u32, unpack_bits, GptqError};
use quantcore::gptq::load::{gptq_linear, gptq_moe_linear, required_tensors, MatrixDims};
use quantcore::gptq::weights::{CpuGptqWeights, GptqCpuParams, ScaledLevel};
use quantcore::routing::{gather_shape, plan_routes};

fn pack4(values: &[u32]) -> i32 {
    values
        .iter()
        .enumerate()
        .fold(0u32, |acc, (i, value)| acc | (value << (i * 4))) as i32
}

fn weight(value: &ScaledLevel) -> f32 {
    value.level as f32 * f32::from_bits(value.scale)
}

fn linear() -> GptqCpuParams {
    GptqCpuParams {
        q_dims: vec![1, 2],
        q_weight: vec![
            pack4(&[1, 2, 3, 4, 5, 6, 7, 8]),
            pack4(&[2, 3, 4, 5, 6, 7, 8, 9]),
        ],
        zero_dims: Some(vec![1, 1]),
        qzeros: vec![0],
        scale_dims: vec![1, 2],
        scales: vec![1f32.to_bits(); 2],
        g_idx: Some(vec![0; 8]),
        bits: 4,
        is_marlin: false,
        is_awq: false,
    }
}

fn experts() -> GptqCpuParams {
    let mut q_weight = Vec::new();
    for expert in 0..2 {
        for k in 0..8 {
            let values = (0..8)
                .map(|out| (k + out + expert) as u32)
                .collect::<Vec<_>>();
            q_weight.push(pack4(&values));
        }
    }
    GptqCpuParams {
        q_dims: vec![2, 8, 1],
        q_weight,
        zero_dims: Some(vec![2, 1, 1]),
        qzeros: vec![pack4(&[1; 8]), pack4(&[1; 8])],
        scale_dims: vec![2, 1, 8],
        scales: vec![1f32.to_bits(); 16],
        g_idx: None,
        bits: 4,
        is_marlin: false,
        is_awq: true,
    }
}

fn fault(params: GptqCpuParams) -> GptqError {
    match CpuGptqWeights::new(params) {
        Ok(_) => panic!("the weights are refused"),
        Err(fault) => fault,
    }
}

#[test]
fn dequantizes_gptq_weight() -> Result<(), GptqError> {
    let weights = CpuGptqWeights::new(linear())?;
    let values: Vec<f32> = weights.dequantize()?.iter().map(weight).collect();

    assert_eq!(weights.weight_shape(), vec![2, 8]);
    assert_eq!(&values[..8], &[0., 1., 2., 3., 4., 5., 6., 7.]);
    assert_eq!(&values[8..], &[1., 2., 3., 4., 5., 6., 7., 8.]);
    Ok(())
}

#[test]
fn gather_forward_dequantizes_selected_awq_experts() -> Result<(), GptqError> {
    let weights = CpuGptqWeights::new(experts())?;
    let shape = gather_shape(&vec![2, 1, 8], &vec![2, 2], weights.in_features).unwrap();
    let plan = plan_routes(shape, &vec![0, 1, 1, 0], weights.experts, weights.out_features);
    assert!(plan.fault.is_none());

    let input = [1f32; 16];
    let mut values = vec![0f32; shape.tokens * shape.topk * weights.out_features];
    for task in &plan.tasks {
        for out in 0..weights.out_features {
            for k in 0..weights.in_features {
                let w = weights.dequant_value(task.expert_id, k, out)?;
                values[task.out_offset + out] +=
                    input[task.x_index * weights.in_features + k] * weight(&w);
            }
        }
    }

    assert_eq!((shape.tokens, shape.topk, weights.out_features), (2, 2, 8));
    assert_eq!(&values[..8], &[20., 28., 36., 44., 52., 60., 68., 76.]);
    assert_eq!(&values[8..16], &[28., 36., 44., 52., 60., 68., 76., 84.]);
    assert_eq!(&values[16..24], &[28., 36., 44., 52., 60., 68., 76., 84.]);
    assert_eq!(&values[24..], &[20., 28., 36., 44., 52., 60., 68., 76.]);
    Ok(())
}

#[test]
fn fields_are_cut_out_of_words() {
    assert_eq!(pack_factor(4), Ok(8));
    assert_eq!(pack_factor(3), Err(GptqError::Bits { bits: 3 }));
    assert_eq!(pack_factor(0), Err(GptqError::Bits { bits: 0 }));
    assert_eq!(signed_to_u32(-1), u32::MAX);
    assert_eq!(unpack_bits(-1, 28, 4), 15);
    assert_eq!(unpack_bits(0x0765_4321, 8, 4), 3);
    assert_eq!(unpack_bits(0x0765_4321, 16, 8), 0x65);
}

#[test]
fn values_zeros_scales_and_groups_are_read() -> Result<(), GptqError> {
    let weights = CpuGptqWeights::new(linear())?;
    assert_eq!(weights.qvalue(0, 7, 1), 9);
    assert_eq!(weights.zero(0, 0, 0), 1);
    assert_eq!(weights.scale(0, 0, 1), 1f32.to_bits());
    assert_eq!(weights.group(0, 5), Ok(0));
    let weights = CpuGptqWeights::new(experts())?;
    assert_eq!(weights.qvalue(1, 7, 6), 14);
    assert_eq!(weights.zero(1, 0, 7), 1);
    assert_eq!(weights.weight_shape(), vec![2, 8, 8]);
    Ok(())
}

#[test]
fn broken_weights_are_refused() {
    let mut marlin = linear();
    marlin.is_marlin = true;
    assert_eq!(fault(marlin), GptqError::Marlin);
    let mut no_zeros = linear();
    no_zeros.zero_dims = None;
    assert_eq!(fault(no_zeros), GptqError::NoZeros);
    let mut bits = linear();
    bits.bits = 5;
    assert_eq!(fault(bits), GptqError::Bits { bits: 5 });
    let mut rank = linear();
    rank.q_dims = vec![2];
    assert_eq!(fault(rank), GptqError::Rank);
    let mut scales = linear();
    scales.scale_dims = vec![1, 1];
    scales.scales.truncate(1);
    assert_eq!(fault(scales), GptqError::Shape);
    let mut zeros = linear();
    zeros.zero_dims = Some(vec![1, 2]);
    zeros.qzeros = vec![0, 0];
    assert_eq!(fault(zeros), GptqError::ZeroShape);
    let mut far = linear();
    far.g_idx = Some(vec![0, 0, 0, 1, 0, 0, 0, 0]);
    let weights = CpuGptqWeights::new(far).unwrap();
    assert!(matches!(
        weights.dequantize(),
        Err(GptqError::GroupRange { group: 1, groups: 1 })
    ));
}

#[test]
fn layers_name_their_tensors_and_shapes() {
    assert_eq!(required_tensors(false).len(), 4);
    assert_eq!(required_tensors(true).len(), 3);
    assert!(!required_tensors(true).contains(&"g_idx"));
    let plain = gptq_linear(256, 128, 4, 64, false);
    assert_eq!((plain.qweight.rows, plain.qweight.cols), (32, 128));
    assert_eq!((plain.qzeros.rows, plain.qzeros.cols), (4, 16));
    assert_eq!((plain.scales.rows, plain.scales.cols), (4, 128));
    assert_eq!(plain.g_idx, Some(256));
    let awq = gptq_linear(256, 128, 4, 64, true);
    assert_eq!(awq.qweight, MatrixDims { rows: 256, cols: 16 });
    assert_eq!(awq.g_idx, None);
}

#[test]
fn expert_layers_refuse_what_they_cannot_hold() {
    let moe = gptq_moe_linear(256, 128, 4, 64, None, false, false).unwrap();
    assert_eq!(moe.qweight, MatrixDims { rows: 32, cols: 128 });
    assert!(matches!(
        gptq_moe_linear(256, 128, 4, 64, None, false, true),
        Err(GptqError::Bias)
    ));
    assert!(matches!(
        gptq_moe_linear(256, 128, 4, 64, Some("marlin"), false, false),
        Err(GptqError::Marlin)
    ));
    assert!(matches!(
        gptq_moe_linear(256, 128, 3, 64, None, false, false),
        Err(GptqError::Bits { bits: 3 })
    ));
    assert!(matches!(
        gptq_moe_linear(256, 128, 4, 0, Some("marlin"), false, true),
        Err(GptqError::Bias)
    ));
    assert!(matches!(
        gptq_moe_linear(256, 128, 3, 0, None, false, false),
        Err(GptqError::Bits { bits: 3 })
    ));
}
