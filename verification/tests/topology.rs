use indexmap::IndexMap;
use quantcore::gguf::limits::GgufCpuRuntimeOptions;
use quantcore::isq::{parse_isq_value, IsqType};
use quantcore::tensor::DeviceLocation;
use quantcore::topology::{
    load_optional_bool, parse_device, qwen35_cpu_moe_enabled, qwen35_profile_enabled,
    store_optional_bool, DeserLayerTopology, DeserTopology, LayerTopology, RuntimeSettings,
    Submodel, Topology, TopologyError, TopologyRuntime, TOPOLOGY_BOOL_FALSE, TOPOLOGY_BOOL_UNSET,
};
use serde::de::{Deserialize, Deserializer, MapAccess, Visitor};

/// A YAML value.
enum Node {
    Text(String),
    Number(u64),
    Switch(bool),
    Entries(Vec<(String, Node)>),
}

struct NodeVisitor;

impl<'de> Visitor<'de> for NodeVisitor {
    type Value = Node;

    fn expecting(&self, f: &mut std::fmt::Formatter) -> std::fmt::Result {
        f.write_str("a scalar or a map")
    }

    fn visit_bool<E>(self, value: bool) -> Result<Node, E> {
        Ok(Node::Switch(value))
    }

    fn visit_u64<E>(self, value: u64) -> Result<Node, E> {
        Ok(Node::Number(value))
    }

    fn visit_i64<E>(self, value: i64) -> Result<Node, E> {
        Ok(Node::Number(value as u64))
    }

    fn visit_str<E>(self, value: &str) -> Result<Node, E> {
        Ok(Node::Text(value.to_string()))
    }

    fn visit_map<A: MapAccess<'de>>(self, mut map: A) -> Result<Node, A::Error> {
        let mut entries = Vec::new();
        while let Some(entry) = map.next_entry::<String, Node>()? {
            entries.push(entry);
        }
        Ok(Node::Entries(entries))
    }
}

impl<'de> Deserialize<'de> for Node {
    fn deserialize<D: Deserializer<'de>>(deserializer: D) -> Result<Node, D::Error> {
        deserializer.deserialize_any(NodeVisitor)
    }
}

fn entries(node: Node) -> Vec<(String, Node)> {
    match node {
        Node::Entries(entries) => entries,
        _ => panic!("a map is expected"),
    }
}

fn layer(node: Node) -> DeserLayerTopology {
    let mut layer = DeserLayerTopology {
        isq: None,
        device: None,
    };
    for (key, value) in entries(node) {
        let Node::Text(text) = value else {
            panic!("a text is expected");
        };
        match key.as_str() {
            "isq" => layer.isq = Some(text),
            "device" => layer.device = Some(text),
            _ => panic!("unknown key {key}"),
        }
    }
    layer
}

fn runtime(node: Node) -> TopologyRuntime {
    let mut runtime = TopologyRuntime::default();
    for (key, value) in entries(node) {
        match (key.as_str(), value) {
            ("cpu_moe", Node::Switch(on)) => runtime.qwen35_cpu_moe = Some(on),
            ("cpu_profile", Node::Switch(on)) => runtime.qwen35_profile = Some(on),
            ("gguf_cpu_moe_q4k_expert_cache", Node::Number(n)) => {
                runtime.gguf_cpu_moe_q4k_expert_cache = Some(n as usize)
            }
            _ => panic!("unknown key {key}"),
        }
    }
    runtime
}

fn empty_deser() -> DeserTopology {
    DeserTopology {
        runtime: TopologyRuntime::default(),
        submodels: vec![],
        layers: IndexMap::new(),
        flat_layers: IndexMap::new(),
    }
}

fn from_str(yaml: &str) -> Result<Topology, TopologyError> {
    let mut deser = empty_deser();
    for (key, value) in entries(serde_saphyr::from_str(yaml).expect("YAML parses")) {
        match key.as_str() {
            "runtime" => deser.runtime = runtime(value),
            "layers" => {
                for (name, said) in entries(value) {
                    deser.layers.insert(name, layer(said));
                }
            }
            "submodels" => {
                for (name, said) in entries(value) {
                    for (_, load) in entries(said) {
                        let Node::Switch(load) = load else {
                            panic!("a switch is expected");
                        };
                        deser.submodels.push(Submodel {
                            name: name.clone(),
                            load,
                        });
                    }
                }
            }
            _ => {
                deser.flat_layers.insert(key, layer(value));
            }
        }
    }
    Topology::from_deser(deser)
}

fn layer_isq(topology: &Topology, layer: usize) -> Option<IsqType> {
    topology
        .layer_for(layer)
        .and_then(|lt| lt.isq.as_ref().copied())
}

fn fault(yaml: &str) -> TopologyError {
    match from_str(yaml) {
        Ok(_) => panic!("{yaml} is refused"),
        Err(fault) => fault,
    }
}

fn unset() -> RuntimeSettings {
    RuntimeSettings {
        qwen35_cpu_moe: TOPOLOGY_BOOL_UNSET,
        qwen35_profile: TOPOLOGY_BOOL_UNSET,
        gguf: GgufCpuRuntimeOptions {
            cpu_moe_expert_cache: None,
            cpu_moe_q4_1_expert_cache: None,
            cpu_moe_q4k_expert_cache: None,
            cpu_moe_parallel_topk: None,
            cpu_q4k_matmul: None,
            cpu_q4k_matmul_cache: None,
            cpu_q4k_matmul_max_rows: None,
        },
    }
}

#[test]
fn highest_end_range_overrides_lower_end() {
    let yaml = "0-4:\n  isq: Q4K\n2-6:\n  isq: Q6K\n";
    let topology = from_str(yaml).expect("topology parses");

    assert_eq!(layer_isq(&topology, 0), Some(IsqType::Q4K));
    assert_eq!(layer_isq(&topology, 2), Some(IsqType::Q6K));
    assert_eq!(layer_isq(&topology, 5), Some(IsqType::Q6K));
}

#[test]
fn later_range_with_same_end_wins() {
    let yaml = "0-4:\n  isq: Q4K\n2-4:\n  isq: Q3K\n";
    let topology = from_str(yaml).expect("topology parses");

    assert_eq!(layer_isq(&topology, 1), Some(IsqType::Q4K));
    assert_eq!(layer_isq(&topology, 2), Some(IsqType::Q3K));
    assert_eq!(layer_isq(&topology, 3), Some(IsqType::Q3K));
}

#[test]
fn regex_overrides_respect_declaration_order() {
    let yaml = r#"'/ffn\./':
  isq: Q4K
'/ffn\.weight$/':
  isq: Q6K
"#;
    let topology = from_str(yaml).expect("topology parses");

    let match_exact = topology
        .match_for_name("model.layers.2.ffn.weight")
        .expect("regex match");
    assert_eq!(match_exact.isq, Some(IsqType::Q6K));

    let overrides = topology.pattern_overrides();
    assert_eq!(overrides.len(), 2);
    assert_eq!(overrides[0].0.as_str(), "ffn\\.weight$");
    assert_eq!(overrides[1].0.as_str(), "ffn\\.");
}

#[test]
fn runtime_and_nested_layers_parse() {
    let yaml = r#"
runtime:
  cpu_moe: true
  cpu_profile: true
  gguf_cpu_moe_q4k_expert_cache: 2048
layers:
  0-2:
    isq: Q4K
    device: cpu
"#;
    let topology = from_str(yaml).expect("topology parses");

    assert_eq!(topology.runtime.qwen35_cpu_moe, Some(true));
    assert_eq!(topology.runtime.qwen35_profile, Some(true));
    assert_eq!(topology.runtime.gguf_cpu_moe_q4k_expert_cache, Some(2048));
    assert_eq!(layer_isq(&topology, 0), Some(IsqType::Q4K));
    assert!(matches!(
        topology.layer_for(0).and_then(|lt| lt.device.as_ref()),
        Some(&DeviceLocation::Cpu)
    ));
}

#[test]
fn match_for_name_returns_none_when_unmatched() {
    let yaml = "0-2:\n  isq: Q4K\n";
    let topology = from_str(yaml).expect("topology parses");
    assert!(topology.match_for_name("transformer.wte.weight").is_none());
}

#[test]
fn the_documented_file_places_every_layer() {
    let yaml = "0-16:\n  device: cuda[0]\n  isq: q4k\n16-32:\n  device: cuda[1]\n  isq: q4k\n\
                32-40:\n  device: cpu\n  isq: q8_0\n";
    let topology = from_str(yaml).expect("topology parses");
    assert_eq!(topology.layers.len(), 40);
    assert_eq!(
        topology.layer_for(15).unwrap().device,
        Some(DeviceLocation::Cuda { gpu_id: 0 })
    );
    assert_eq!(
        topology.layer_for(16).unwrap().device,
        Some(DeviceLocation::Cuda { gpu_id: 1 })
    );
    assert_eq!(layer_isq(&topology, 39), Some(IsqType::Q8_0));
    assert!(topology.layer_for(40).is_none());
    assert!(!topology.is_dummy_device_map());
    assert!(topology.requires_post_quantization());
}

#[test]
fn a_disabled_submodel_refuses_media() {
    let yaml = "submodels:\n  vision:\n    load: false\n0-40:\n  device: cuda[0]\n";
    let topology = from_str(yaml).expect("topology parses");
    assert!(!topology.loads_submodel("vision"));
    assert!(topology.loads_submodel("audio"));
    assert!(topology.check_media(false).is_ok());
    assert!(matches!(
        topology.check_media(true),
        Err(TopologyError::VisionDisabled)
    ));
    assert!(Topology::empty().check_media(true).is_ok());
}

#[test]
fn nested_entries_follow_flat_ones() {
    let yaml = "layers:\n  0-2:\n    isq: Q4K\n0-2:\n  isq: Q6K\n";
    let topology = from_str(yaml).expect("topology parses");
    assert_eq!(layer_isq(&topology, 0), Some(IsqType::Q4K));
}

#[test]
fn single_layers_and_gaps_are_kept() {
    let topology = from_str("'3':\n  isq: Q4_0\n").expect("topology parses");
    assert_eq!(topology.layers.len(), 4);
    assert!(topology.layer_for(2).is_none());
    assert_eq!(layer_isq(&topology, 3), Some(IsqType::Q4_0));
    assert!(topology.is_dummy_device_map());
}

#[test]
fn bad_entries_are_refused() {
    assert!(matches!(
        fault("0-2:\n  isq: Q99\n"),
        TopologyError::Isq { entry: 0 }
    ));
    assert!(matches!(
        fault("0-2:\n  isq: Q4K\n2-4:\n  device: tpu\n"),
        TopologyError::Device { entry: 1 }
    ));
    assert!(matches!(
        fault("'/(/':\n  isq: Q4K\n"),
        TopologyError::Pattern { entry: 0 }
    ));
    assert!(matches!(
        fault("first:\n  isq: Q4K\n"),
        TopologyError::Selector { entry: 0 }
    ));
    assert!(matches!(
        fault("4-4:\n  isq: Q4K\n"),
        TopologyError::Range { start: 4, end: 4 }
    ));
}

#[test]
fn devices_are_named() {
    assert_eq!(parse_device("cpu"), Some(DeviceLocation::Cpu));
    assert_eq!(
        parse_device("cuda[12]"),
        Some(DeviceLocation::Cuda { gpu_id: 12 })
    );
    assert_eq!(
        parse_device("metal[0]"),
        Some(DeviceLocation::Metal { gpu_id: 0 })
    );
    for text in ["cuda", "cuda[]", "cuda[x]", "CPU", "gpu[0]", "cuda[1] "] {
        assert_eq!(parse_device(text), None, "{text}");
    }
}

#[test]
fn quantizations_are_named() {
    assert_eq!(parse_isq_value("q4k"), Some(IsqType::Q4K));
    assert_eq!(parse_isq_value("Q8_0"), Some(IsqType::Q8_0));
    assert_eq!(parse_isq_value("HqZ4"), Some(IsqType::HQZ4));
    assert_eq!(parse_isq_value("q4"), None);
}

#[test]
fn ranges_can_be_set_one_by_one() {
    let said = LayerTopology {
        isq: Some(IsqType::Q5K),
        device: None,
    };
    let topology = Topology::with_capacity(4).with_range(1..3, said);
    assert_eq!(layer_isq(&topology, 1), Some(IsqType::Q5K));
    assert_eq!(layer_isq(&topology, 2), Some(IsqType::Q5K));
    assert!(topology.layer_for(0).is_none());
    assert!(topology.layer_for(3).is_none());
    assert!(topology.requires_post_quantization());
    assert!(!Topology::empty().requires_post_quantization());
}

#[test]
fn a_stored_switch_is_read_back() {
    let mut cell = TOPOLOGY_BOOL_UNSET;
    for value in [Some(true), Some(false), None] {
        store_optional_bool(&mut cell, value);
        assert_eq!(load_optional_bool(cell), value);
    }
    assert_eq!(load_optional_bool(9), None);
    store_optional_bool(&mut cell, Some(false));
    assert_eq!(cell, TOPOLOGY_BOOL_FALSE);
}

#[test]
fn a_topology_decides_before_the_environment() {
    let mut topology = Topology::empty();
    assert!(!topology.runtime.has_any());
    topology.runtime.qwen35_cpu_moe = Some(false);
    topology.runtime.gguf_cpu_q4k_matmul_max_rows = Some(5);
    assert!(topology.runtime.has_any());
    let mut settings = unset();
    assert!(qwen35_cpu_moe_enabled(&settings, None, Some("1")));
    assert!(!qwen35_cpu_moe_enabled(&settings, Some("0"), Some("1")));
    topology.apply_runtime_options(&mut settings);
    assert!(!qwen35_cpu_moe_enabled(&settings, Some("1"), Some("1")));
    assert!(!qwen35_profile_enabled(&settings, None, None));
    assert!(qwen35_profile_enabled(&settings, Some("yes"), None));
    assert_eq!(settings.gguf.cpu_q4k_matmul_max_rows, Some(5));
}
