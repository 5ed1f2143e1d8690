use quantcore::arith::{div_ceil, power_of_two};
use quantcore::attention::{
    gdn_finite_check_enabled, gdn_is_finite, must_synchronize, naive_sdpa_trace_enabled,
    plan_cast, plan_sdpa, softmax_dtypes, uses_legacy_f32_path, AttentionError, CastRoute,
    SdpaCounters, SdpaPlan,
};
use quantcore::dtype::DType;
use quantcore::flags::{env_bool, flag_is_on, flag_or, switched_on};
use quantcore::paging::{
    indices_to_vec, plan_gather, plan_slots, slot_mapping_to_vec, GatherFault, IndexData,
};
use quantcore::server::{default_host, default_port, default_true, ServerConfig, ServerOptions};
use quantcore::speculative::{
    check_commit, choose_n_predict, noise_ids, LayerType, Model, ProposeInputs, SpeculativeError,
    SpeculativeRequest, TargetRows,
};
use quantcore::tensor::{count_elements, with_last};
use quantcore::text::{chars_of, parse_usize};

#[test]
fn slots_name_blocks_and_offsets() {
    assert_eq!(
        slot_mapping_to_vec(&IndexData::I32(vec![-1, 5])).unwrap(),
        vec![-1, 5]
    );
    assert_eq!(
        slot_mapping_to_vec(&IndexData::Other(DType::F32)),
        Err(DType::F32)
    );
    assert_eq!(
        indices_to_vec(&IndexData::I64(vec![-3, 4]), true).unwrap(),
        vec![0, 4]
    );
    assert_eq!(
        indices_to_vec(&IndexData::I64(vec![4]), false),
        Err(DType::I64)
    );
    let plan = plan_slots(&vec![17, -1, 4], 2, 16);
    let writes: Vec<(usize, usize, usize)> = plan
        .writes
        .iter()
        .map(|w| (w.token, w.block, w.offset))
        .collect();
    assert_eq!(writes, vec![(0, 1, 1), (2, 0, 4)]);
    assert!(plan.fault.is_none());
    let fault = plan_slots(&vec![3, 32, 1], 2, 16).fault.unwrap();
    assert_eq!((fault.token, fault.slot, fault.block), (1, 32, 2));
}

#[test]
fn gathered_tokens_are_found_in_their_blocks() {
    let tables = vec![vec![1, 0], vec![1]];
    let reads = plan_gather(&tables, &vec![0, 3, 4], 2, 2).unwrap();
    let places: Vec<(usize, usize, usize, usize)> = reads
        .iter()
        .map(|r| (r.sequence, r.token, r.block, r.offset))
        .collect();
    assert_eq!(
        places,
        vec![(0, 0, 1, 0), (0, 1, 1, 1), (0, 2, 0, 0), (1, 0, 1, 0)]
    );
    assert!(matches!(
        plan_gather(&tables, &vec![0, 3], 2, 2),
        Err(GatherFault::SequenceCount {
            lengths: 2,
            tables: 2
        })
    ));
    assert!(matches!(
        plan_gather(&tables, &vec![0, 5, 5], 2, 2),
        Err(GatherFault::TableTooShort {
            sequence: 0,
            token: 4,
            table_index: 2
        })
    ));
    assert!(matches!(
        plan_gather(&tables, &vec![0, 1, 1], 1, 2),
        Err(GatherFault::BlockOutOfRange {
            sequence: 0,
            token: 0,
            block: 1
        })
    ));
}

#[test]
fn attention_is_planned_from_shapes() {
    let plan = plan_sdpa(&vec![1, 8, 3, 64], &vec![1, 8, 5, 64], &vec![1, 8, 5, 32]);
    assert!(matches!(
        plan,
        Ok(SdpaPlan::Products {
            batch: 1,
            heads: 8,
            query_len: 3,
            value_dim: 32
        })
    ));
    let none = plan_sdpa(&vec![1, 8, 3, 64], &vec![1, 8, 0, 64], &vec![1, 8, 0, 32]);
    assert!(matches!(none, Ok(SdpaPlan::ZerosLikeQuery)));
    let none = plan_sdpa(&vec![1, 8, 0, 64], &vec![1, 8, 5, 64], &vec![1, 8, 5, 32]);
    assert!(matches!(none, Ok(SdpaPlan::Zeros { query_len: 0, value_dim: 32, .. })));
    assert!(matches!(
        plan_sdpa(&vec![1, 8, 3, 64], &vec![8], &vec![1, 8, 5, 32]),
        Err(AttentionError::KeyRank { rank: 1 })
    ));
    let mut counters = SdpaCounters {
        total: 98,
        decode: 98,
        prefill: 0,
    };
    assert!(!counters.record(5));
    assert!(counters.record(1));
    assert_eq!((counters.total, counters.decode, counters.prefill), (100, 99, 1));
}

#[test]
fn attention_switches_and_types() {
    assert!(!naive_sdpa_trace_enabled(None));
    assert!(must_synchronize(0));
    assert_eq!(plan_cast(DType::F16, DType::F16, true), CastRoute::Keep);
    assert_eq!(plan_cast(DType::BF16, DType::F32, true), CastRoute::ThroughCpu);
    assert_eq!(plan_cast(DType::BF16, DType::F32, false), CastRoute::InPlace);
    assert!(!uses_legacy_f32_path(DType::F32, true));
    assert!(!uses_legacy_f32_path(DType::BF16, false));
    let (_, back) = softmax_dtypes(DType::F32, false);
    assert_eq!(back, None);
    assert!(!gdn_finite_check_enabled(None));
    assert!(gdn_is_finite(false, f32::NAN.to_bits()));
    assert!(!gdn_is_finite(true, f32::INFINITY.to_bits()));
    assert!(gdn_is_finite(true, 1.0f32.to_bits()));
}

fn model(layer_types: Vec<LayerType>) -> Model {
    Model {
        layer_types,
        mtp_n_predict: 0,
        store_spec_hidden: false,
        dflash_tap_layers: vec![],
        has_spec_capture: true,
        has_full_capture: true,
        has_drafter: false,
    }
}

#[test]
fn drafters_are_attached_and_detached() {
    assert_eq!(choose_n_predict(None, 4), Ok(3));
    assert_eq!(choose_n_predict(Some(2), 4), Ok(2));
    assert_eq!(choose_n_predict(Some(0), 4), Err(SpeculativeError::ZeroTokens));
    assert_eq!(
        choose_n_predict(Some(4), 4),
        Err(SpeculativeError::TooManyTokens {
            requested: 4,
            block: 4
        })
    );
    assert_eq!(
        choose_n_predict(Some(1), 0),
        Err(SpeculativeError::TooManyTokens {
            requested: 1,
            block: 0
        })
    );
    let mut m = model(vec![LayerType::Conv, LayerType::FullAttention]);
    assert!(m.supports_shortconv_checkpoints());
    assert!(!m.supports_speculative_prompt_bootstrap());
    assert!(!m.supports_speculative_packed_prefill());
    assert_eq!(m.plan_attach(false, None, 4).err(), Some(SpeculativeError::NotDSpark));
    assert_eq!(m.plan_attach(false, None, 0).err(), Some(SpeculativeError::NotDSpark));
    let plan = m.plan_attach(true, Some(3), 4).unwrap();
    assert_eq!(plan.n_predict, 3);
    m.attach(plan.n_predict, vec![0, 1]);
    assert_eq!(m.mtp_n_predict(), 3);
    assert!(m.supports_speculative_prompt_bootstrap());
    assert!(m.supports_speculative_packed_prefill());
    assert!(m.has_speculative_proposer());
    assert_eq!(m.speculative_plan(), Some(3));
    assert_eq!(m.speculative_graph_plans(), vec![3]);
    m.detach();
    assert!(!m.has_speculative_proposer());
    assert_eq!(m.speculative_plan(), None);
    assert!(m.speculative_graph_plans().is_empty());
    assert_eq!(
        m.attach_speculative(SpeculativeRequest::Builtin).err(),
        Some(SpeculativeError::NoBuiltinHead)
    );
    assert_eq!(check_commit(true), Ok(()));
    assert_eq!(check_commit(false), Err(SpeculativeError::NoCheckpoints));
}

#[test]
fn proposals_take_the_rows_of_their_sequences() {
    assert_eq!(noise_ids(&vec![5, 6], 9, 2), vec![5, 9, 9, 6, 9, 9]);
    let mut m = model(vec![LayerType::FullAttention]);
    m.attach(4, vec![0]);
    let inputs = ProposeInputs {
        seq_ids: vec![11, 12],
        proposal_len: 2,
        any_stochastic: false,
        any_dormant: false,
        taps: Some(1),
        expected_taps: 1,
        source_rows: 3,
        target_rows: vec![
            TargetRows {
                batch_idx: 0,
                count: 2,
            },
            TargetRows {
                batch_idx: 1,
                count: 1,
            },
        ],
        base_lens: vec![7, 8],
        next_pos: vec![None, Some(8)],
    };
    let plan = m.plan_propose(&inputs).unwrap().unwrap();
    assert_eq!(plan.appends.len(), 1);
    assert_eq!((plan.appends[0].seq_id, plan.appends[0].rows), (11, 2));
    assert_eq!(plan.appends[0].start_pos, 5);
    assert_eq!(plan.rows, vec![0, 1]);
    let mut long = inputs;
    long.proposal_len = 5;
    assert!(matches!(
        m.plan_propose(&long),
        Err(SpeculativeError::ProposalLength {
            requested: 5,
            maximum: 4
        })
    ));
    long.proposal_len = 0;
    assert_eq!(m.check_propose(&long), Ok(false));
    long.target_rows = vec![];
    assert!(m.plan_propose(&long).unwrap().is_none());
    m.detach();
    assert!(matches!(
        m.plan_propose(&long),
        Err(SpeculativeError::NoDrafter)
    ));
}

#[test]
fn prefill_appends_every_span() {
    let mut m = model(vec![LayerType::FullAttention]);
    m.attach(4, vec![0]);
    let appends = m
        .plan_prefill(Some(1), 1, &vec![3, 4], &vec![0, 10], &vec![5, 2])
        .unwrap()
        .unwrap();
    let got: Vec<(usize, usize, usize)> = appends
        .iter()
        .map(|a| (a.seq_id, a.rows, a.start_pos))
        .collect();
    assert_eq!(got, vec![(3, 5, 0), (4, 2, 10)]);
    let shortest = m
        .plan_prefill(Some(1), 1, &vec![3, 4, 5], &vec![0, 10], &vec![5])
        .unwrap()
        .unwrap();
    assert_eq!(shortest.len(), 1);
    assert!(m
        .plan_prefill(None, 1, &vec![3], &vec![0], &vec![5])
        .unwrap()
        .is_none());
}

#[test]
fn servers_have_defaults() {
    let options = ServerOptions::default();
    assert_eq!(options.port, 1234);
    assert_eq!(options.port, default_port());
    assert_eq!(options.host, default_host());
    assert!(default_true());
    assert!(!options.no_ui);
    assert!(ServerConfig::default().server.is_none());
}

#[test]
fn switches_are_read() {
    assert!(flag_is_on("1"));
    assert!(!flag_is_on("FALSE"));
    assert!(switched_on(""));
    assert!(!switched_on("0"));
    assert!(flag_or(None, true));
    assert!(!flag_or(Some("0"), true));
    assert_eq!(env_bool(None), None);
    assert_eq!(env_bool(Some("")), Some(false));
    assert_eq!(env_bool(Some("false")), Some(true));
}

#[test]
fn numbers_are_counted() {
    assert!(power_of_two(64));
    assert!(!power_of_two(0));
    assert_eq!(div_ceil(9, 4), 3);
    assert_eq!(count_elements(&vec![2, 3, 4], 2), Some(6));
    assert_eq!(count_elements(&vec![usize::MAX, 2], 2), None);
    assert_eq!(with_last(&vec![2, 3], 9), vec![2, 9]);
    assert_eq!(parse_usize(&chars_of("+12")), Some(12));
    assert_eq!(parse_usize(&chars_of("1x")), None);
    assert_eq!(parse_usize(&chars_of("99999999999999999999")), None);
}

#[test]
fn written_tokens_are_read_from_their_places() {
    let table = vec![3, 0, 2];
    let slots: Vec<i64> = (0..9usize)
        .map(|token| (table[token / 4] * 4 + token % 4) as i64)
        .collect();
    let plan = plan_slots(&slots, 4, 4);
    assert!(plan.fault.is_none());
    let reads = plan_gather(&vec![table], &vec![0, 9], 4, 4).unwrap();
    assert_eq!((plan.writes.len(), reads.len()), (9, 9));
    for (write, read) in plan.writes.iter().zip(&reads) {
        assert_eq!(
            (write.token, write.block, write.offset),
            (read.token, read.block, read.offset)
        );
    }
    for (i, write) in plan.writes.iter().enumerate() {
        for other in &plan.writes[..i] {
            assert_ne!((write.block, write.offset), (other.block, other.offset));
        }
    }
}
