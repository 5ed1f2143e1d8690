//! Placement and quantization of the layers of a model, by ranges of layers and by names of
//! tensors.
use crate::flags::env_bool;
use crate::gguf::limits::{text_of, GgufCpuRuntimeOptions};
use crate::isq::{isq_named, parse_isq_value, IsqType};
use crate::regexes::{
    clone_regex, compile_regex, is_plain, pattern_accepts, pattern_compiles, regex_accepts,
    regex_is_match, regex_source,
};
use crate::tensor::DeviceLocation;
use crate::text::{
    all_digits, ascii_lower_text, chars_between, chars_from, chars_of, decimal_digits,
    decimal_value, digits_write_their_number, parse_usize, parsed_usize, same_text, without_plus,
    written_number_is_read,
};
use indexmap::IndexMap;
use regex::Regex;
use vstd::prelude::*;
use vstd::string::StrSliceExecFns;

verus! {

/// What a topology says of some layers, as written.
pub struct DeserLayerTopology {
    pub isq: Option<String>,
    pub device: Option<String>,
}

/// Settings that a topology makes for the whole program.
#[derive(Clone, Copy, Debug, PartialEq, Eq, Structural)]
pub struct TopologyRuntime {
    pub qwen35_cpu_moe: Option<bool>,
    pub qwen35_profile: Option<bool>,
    pub gguf_cpu_moe_expert_cache: Option<usize>,
    pub gguf_cpu_moe_q4_1_expert_cache: Option<usize>,
    pub gguf_cpu_moe_q4k_expert_cache: Option<usize>,
    pub gguf_cpu_moe_parallel_topk: Option<bool>,
    pub gguf_cpu_q4k_matmul: Option<bool>,
    pub gguf_cpu_q4k_matmul_cache: Option<usize>,
    pub gguf_cpu_q4k_matmul_max_rows: Option<usize>,
}

impl Default for TopologyRuntime {
    fn default() -> (runtime: Self)
        ensures
            !runtime.sets_any(),
    {
        TopologyRuntime {
            qwen35_cpu_moe: None,
            qwen35_profile: None,
            gguf_cpu_moe_expert_cache: None,
            gguf_cpu_moe_q4_1_expert_cache: None,
            gguf_cpu_moe_q4k_expert_cache: None,
            gguf_cpu_moe_parallel_topk: None,
            gguf_cpu_q4k_matmul: None,
            gguf_cpu_q4k_matmul_cache: None,
            gguf_cpu_q4k_matmul_max_rows: None,
        }
    }
}

/// A part of a model for one kind of input, and whether it is loaded.
pub struct Submodel {
    pub name: String,
    pub load: bool,
}

/// A map of the `indexmap` crate, which keeps its entries in the order in which they came.
#[verifier::external_type_specification]
#[verifier::external_body]
#[verifier::reject_recursive_types(K)]
#[verifier::reject_recursive_types(V)]
#[verifier::reject_recursive_types(S)]
pub struct ExIndexMap<K, V, S>(indexmap::IndexMap<K, V, S>);

/// A topology as written: settings, submodels, and what is said of layers, on the outside and
/// under a key of its own.
pub struct DeserTopology {
    pub runtime: TopologyRuntime,
    pub submodels: Vec<Submodel>,
    pub layers: IndexMap<String, DeserLayerTopology>,
    pub flat_layers: IndexMap<String, DeserLayerTopology>,
}

/// What is said of some layers: selector, quantization and device, as written.
pub open spec fn entry_view(entry: (String, DeserLayerTopology)) -> (
    Seq<char>,
    Option<Seq<char>>,
    Option<Seq<char>>,
) {
    (
        entry.0@,
        match entry.1.isq {
            Some(isq) => Some(isq@),
            None => None,
        },
        match entry.1.device {
            Some(device) => Some(device@),
            None => None,
        },
    )
}

/// What is said of some layers, for each entry.
pub open spec fn entry_views(entries: Seq<(String, DeserLayerTopology)>) -> Seq<
    (Seq<char>, Option<Seq<char>>, Option<Seq<char>>),
> {
    Seq::new(entries.len(), |i: int| entry_view(entries[i]))
}

/// The entries of a map, in the order in which they came.
pub uninterp spec fn map_entries(map: IndexMap<String, DeserLayerTopology>) -> Seq<
    (Seq<char>, Option<Seq<char>>, Option<Seq<char>>),
>;

/// Calls `into_iter` of `indexmap::IndexMap`: hands out the entries in the order in which they
/// came.
#[verifier::external_body]
fn into_entries(map: IndexMap<String, DeserLayerTopology>) -> (entries: Vec<
    (String, DeserLayerTopology),
>)
    ensures
        entry_views(entries@) == map_entries(map),
{
    map.into_iter().collect()
}

/// What a topology says of a layer.
#[derive(Clone, Copy, Debug, PartialEq, Eq, Structural)]
pub struct LayerTopology {
    pub isq: Option<IsqType>,
    pub device: Option<DeviceLocation>,
}

/// Why a topology is refused.
#[derive(Clone, Copy, Debug, PartialEq, Eq, Structural)]
pub enum TopologyError {
    /// There is no quantization of this name.
    Isq { entry: usize },
    /// A device is `cpu`, `cuda[N]` or `metal[N]`.
    Device { entry: usize },
    /// The pattern between the slashes is no regular expression.
    Pattern { entry: usize },
    /// A selector is a layer, or a range `START-END`.
    Selector { entry: usize },
    /// The end of a range has to come after its start.
    Range { start: usize, end: usize },
    /// Images and videos need a submodel that is not loaded.
    VisionDisabled,
}

/// The text between a beginning and a closing bracket, if these are there.
pub open spec fn bracketed(text: Seq<char>, head: Seq<char>) -> Option<Seq<char>> {
    let n = head.len() as int;
    if text.len() > n && text.take(n) == head && text.last() == ']' {
        Some(text.subrange(n, text.len() - 1))
    } else {
        None
    }
}

/// The number in brackets.
pub open spec fn ordinal(digits: Seq<char>) -> Option<usize> {
    if digits.len() > 0 && all_digits(digits) && decimal_value(digits) <= usize::MAX {
        Some(decimal_value(digits) as usize)
    } else {
        None
    }
}

/// The device of a name.
pub open spec fn device_named(text: Seq<char>) -> Option<DeviceLocation> {
    if text == "cpu"@ {
        Some(DeviceLocation::Cpu)
    } else if bracketed(text, "cuda["@) is Some {
        match ordinal(bracketed(text, "cuda["@)->0) {
            Some(gpu_id) => Some(DeviceLocation::Cuda { gpu_id }),
            None => None,
        }
    } else if bracketed(text, "metal["@) is Some {
        match ordinal(bracketed(text, "metal["@)->0) {
            Some(gpu_id) => Some(DeviceLocation::Metal { gpu_id }),
            None => None,
        }
    } else {
        None
    }
}

fn in_brackets(text: &Vec<char>, head: &str) -> (inner: Option<Vec<char>>)
    ensures
        match inner {
            Some(i) => bracketed(text@, head@) == Some(i@),
            None => bracketed(text@, head@) is None,
        },
{
    let start: Vec<char> = chars_of(head);
    let n: usize = start.len();
    if text.len() <= n {
        return None;
    }
    let mut i: usize = 0;
    while i < n
        invariant
            i <= n,
            n == start@.len(),
            n < text@.len(),
            start@ == head@,
            forall|j: int| 0 <= j < i ==> #[trigger] text@[j] == start@[j],
        decreases n - i,
    {
        if text[i] != start[i] {
            assert(text@.take(n as int)[i as int] != head@[i as int]);
            return None;
        }
        i += 1;
    }
    assert(text@.take(n as int) =~= head@);
    if text[text.len() - 1] != ']' {
        return None;
    }
    Some(chars_between(text, n, text.len() - 1))
}

fn parse_ordinal(digits: &Vec<char>) -> (value: Option<usize>)
    ensures
        value == ordinal(digits@),
{
    if digits.len() > 0 && digits[0] == '+' {
        assert(!('0' <= digits@[0] && digits@[0] <= '9'));
        return None;
    }
    assert(without_plus(digits@) == digits@);
    parse_usize(digits)
}

/// The device of a name.
pub fn parse_device(text: &str) -> (device: Option<DeviceLocation>)
    ensures
        device == device_named(text@),
{
    if same_text(text, "cpu") {
        return Some(DeviceLocation::Cpu);
    }
    let chars: Vec<char> = chars_of(text);
    if let Some(digits) = in_brackets(&chars, "cuda[") {
        return match parse_ordinal(&digits) {
            Some(gpu_id) => Some(DeviceLocation::Cuda { gpu_id }),
            None => None,
        };
    }
    if let Some(digits) = in_brackets(&chars, "metal[") {
        return match parse_ordinal(&digits) {
            Some(gpu_id) => Some(DeviceLocation::Metal { gpu_id }),
            None => None,
        };
    }
    None
}

/// Whether a selector is a pattern for names: text between slashes.
pub open spec fn is_pattern(selector: Seq<char>) -> bool {
    selector.len() >= 2 && selector[0] == '/' && selector.last() == '/'
}

/// The pattern between the slashes.
pub open spec fn pattern_of(selector: Seq<char>) -> Seq<char> {
    selector.subrange(1, selector.len() - 1)
}

/// Where the first dash of a text is; its length if there is none.
pub open spec fn first_dash(text: Seq<char>) -> int
    decreases text.len(),
{
    if text.len() == 0 || text[0] == '-' {
        0
    } else {
        1 + first_dash(text.skip(1))
    }
}

/// Start and end of the range of a selector: what stands before and after its first dash, or a
/// layer and the one after it.
pub open spec fn range_of(selector: Seq<char>) -> Option<(usize, usize)> {
    let dash = first_dash(selector);
    if dash < selector.len() {
        match (parsed_usize(selector.take(dash)), parsed_usize(selector.skip(dash + 1))) {
            (Some(start), Some(end)) => Some((start, end)),
            _ => None,
        }
    } else {
        match parsed_usize(selector) {
            Some(layer) => Some(
                (
                    layer,
                    if layer == usize::MAX {
                        0
                    } else {
                        (layer + 1) as usize
                    },
                ),
            ),
            None => None,
        }
    }
}

proof fn dash_is_inside(text: Seq<char>)
    ensures
        0 <= first_dash(text) <= text.len(),
        first_dash(text) < text.len() ==> text[first_dash(text)] == '-',
        forall|i: int| 0 <= i < first_dash(text) ==> #[trigger] text[i] != '-',
    decreases text.len(),
{
    if text.len() > 0 && text[0] != '-' {
        let rest = text.skip(1);
        dash_is_inside(rest);
        assert forall|i: int| 0 <= i < first_dash(text) implies #[trigger] text[i] != '-' by {
            if i > 0 {
                assert(rest[i - 1] == text[i]);
            }
        }
        if first_dash(text) < text.len() {
            assert(rest[first_dash(rest)] == text[first_dash(text)]);
        }
    }
}

fn parse_range(selector: &str) -> (range: Option<(usize, usize)>)
    ensures
        range == range_of(selector@),
{
    let chars: Vec<char> = chars_of(selector);
    proof {
        dash_is_inside(chars@);
    }
    let mut dash: usize = 0;
    while dash < chars.len() && chars[dash] != '-'
        invariant
            dash <= chars@.len(),
            dash <= first_dash(chars@),
            0 <= first_dash(chars@) <= chars@.len(),
            first_dash(chars@) < chars@.len() ==> chars@[first_dash(chars@)] == '-',
        decreases chars@.len() - dash,
    {
        dash += 1;
    }
    if dash < chars.len() {
        assert(dash == first_dash(chars@));
        let before: Vec<char> = chars_between(&chars, 0, dash);
        let after: Vec<char> = chars_from(&chars, dash + 1);
        assert(before@ =~= chars@.take(dash as int));
        return match (parse_usize(&before), parse_usize(&after)) {
            (Some(start), Some(end)) => Some((start, end)),
            _ => None,
        };
    }
    match parse_usize(&chars) {
        Some(layer) => Some(
            (
                layer,
                if layer == usize::MAX {
                    0
                } else {
                    layer + 1
                },
            ),
        ),
        None => None,
    }
}

/// What an entry says of its layers.
pub open spec fn entry_layer(entry: (Seq<char>, Option<Seq<char>>, Option<Seq<char>>)) -> LayerTopology {
    LayerTopology {
        isq: match entry.1 {
            Some(name) => isq_named(ascii_lower_text(name)),
            None => None,
        },
        device: match entry.2 {
            Some(name) => device_named(name),
            None => None,
        },
    }
}

/// What is wrong with entry number `index`.
pub open spec fn entry_fault(
    entry: (Seq<char>, Option<Seq<char>>, Option<Seq<char>>),
    index: usize,
) -> Option<TopologyError> {
    let layer = entry_layer(entry);
    let selector = entry.0;
    if entry.1 is Some && layer.isq is None {
        Some(TopologyError::Isq { entry: index })
    } else if entry.2 is Some && layer.device is None {
        Some(TopologyError::Device { entry: index })
    } else if is_pattern(selector) {
        if pattern_compiles(pattern_of(selector)) {
            None
        } else {
            Some(TopologyError::Pattern { entry: index })
        }
    } else {
        match range_of(selector) {
            None => Some(TopologyError::Selector { entry: index }),
            Some((start, end)) => if end <= start {
                Some(TopologyError::Range { start, end })
            } else {
                None
            },
        }
    }
}

/// A range of layers and what is said of them.
#[derive(Clone, Copy, Debug, PartialEq, Eq, Structural)]
pub struct RangeLayer {
    pub start: usize,
    pub end: usize,
    pub layer: LayerTopology,
}

/// The ranges among entries, in their order.
pub open spec fn range_entries(
    entries: Seq<(Seq<char>, Option<Seq<char>>, Option<Seq<char>>)>,
) -> Seq<RangeLayer>
    decreases entries.len(),
{
    if entries.len() == 0 {
        Seq::empty()
    } else {
        let front = range_entries(entries.drop_last());
        let last = entries.last();
        if is_pattern(last.0) {
            front
        } else {
            let range = range_of(last.0)->0;
            front.push(RangeLayer { start: range.0, end: range.1, layer: entry_layer(last) })
        }
    }
}

/// The patterns among entries, in their order.
pub open spec fn pattern_entries(
    entries: Seq<(Seq<char>, Option<Seq<char>>, Option<Seq<char>>)>,
) -> Seq<(Seq<char>, LayerTopology)>
    decreases entries.len(),
{
    if entries.len() == 0 {
        Seq::empty()
    } else {
        let front = pattern_entries(entries.drop_last());
        let last = entries.last();
        if is_pattern(last.0) {
            front.push((pattern_of(last.0), entry_layer(last)))
        } else {
            front
        }
    }
}

/// Whether a range has a layer in it.
pub open spec fn covers(range: RangeLayer, layer: int) -> bool {
    range.start <= layer < range.end
}

/// Whether range `a` overrides range `b`: by a larger end, or a later place.
pub open spec fn overrides(ranges: Seq<RangeLayer>, a: int, b: int) -> bool {
    ranges[a].end > ranges[b].end || (ranges[a].end == ranges[b].end && a >= b)
}

/// Whether range `w` is the one that decides on a layer.
pub open spec fn decides(ranges: Seq<RangeLayer>, layer: int, w: int) -> bool {
    &&& 0 <= w < ranges.len()
    &&& covers(ranges[w], layer)
    &&& forall|b: int|
        0 <= b < ranges.len() && covers(#[trigger] ranges[b], layer) ==> overrides(ranges, w, b)
}

/// Whether ranges say this of a layer.
pub open spec fn says(ranges: Seq<RangeLayer>, layer: int, said: Option<LayerTopology>) -> bool {
    match said {
        Some(l) => exists|w: int| #[trigger] decides(ranges, layer, w) && ranges[w].layer == l,
        None => forall|b: int|
            0 <= b < ranges.len() ==> !covers(#[trigger] ranges[b], layer),
    }
}

/// The largest end of ranges.
pub open spec fn largest_end(ranges: Seq<RangeLayer>) -> usize
    decreases ranges.len(),
{
    if ranges.len() == 0 {
        0
    } else {
        let front = largest_end(ranges.drop_last());
        if front < ranges.last().end {
            ranges.last().end
        } else {
            front
        }
    }
}

/// Placement and quantization of the layers of a model.
pub struct Topology {
    pub layers: Vec<Option<LayerTopology>>,
    pub patterns: Vec<(Regex, LayerTopology)>,
    pub runtime: TopologyRuntime,
    pub submodels: Vec<Submodel>,
}

/// Whether patterns are those of entries, compiled.
pub open spec fn are_patterns(
    patterns: Seq<(Regex, LayerTopology)>,
    expected: Seq<(Seq<char>, LayerTopology)>,
) -> bool {
    &&& patterns.len() == expected.len()
    &&& forall|i: int|
        0 <= i < patterns.len() ==> {
            &&& regex_source((#[trigger] patterns[i]).0) == expected[i].0
            &&& is_plain(patterns[i].0)
            &&& patterns[i].1 == expected[i].1
        }
}

/// What compiled patterns say of a name: the last one that matches it decides.
pub open spec fn said_by_last_match(
    patterns: Seq<(Regex, LayerTopology)>,
    name: Seq<char>,
) -> Option<LayerTopology>
    decreases patterns.len(),
{
    if patterns.len() == 0 {
        None
    } else if regex_accepts(patterns.last().0, name) {
        Some(patterns.last().1)
    } else {
        said_by_last_match(patterns.drop_last(), name)
    }
}

/// What patterns as they are written say of a name: the last one that matches it decides.
pub open spec fn written_last_match(
    patterns: Seq<(Seq<char>, LayerTopology)>,
    name: Seq<char>,
) -> Option<LayerTopology>
    decreases patterns.len(),
{
    if patterns.len() == 0 {
        None
    } else if pattern_accepts(patterns.last().0, name) {
        Some(patterns.last().1)
    } else {
        written_last_match(patterns.drop_last(), name)
    }
}

/// The entries of a topology as written: those on the outside come first.
pub open spec fn all_entries(deser: DeserTopology) -> Seq<
    (Seq<char>, Option<Seq<char>>, Option<Seq<char>>),
> {
    map_entries(deser.flat_layers) + map_entries(deser.layers)
}

/// What is wrong with the first entry that something is wrong with.
pub open spec fn first_entry_fault(
    entries: Seq<(Seq<char>, Option<Seq<char>>, Option<Seq<char>>)>,
) -> Option<TopologyError>
    decreases entries.len(),
{
    if entries.len() == 0 {
        None
    } else {
        match first_entry_fault(entries.drop_last()) {
            Some(e) => Some(e),
            None => entry_fault(entries.last(), (entries.len() - 1) as usize),
        }
    }
}

proof fn fault_stays(
    entries: Seq<(Seq<char>, Option<Seq<char>>, Option<Seq<char>>)>,
    n: int,
)
    requires
        0 <= n <= entries.len(),
        first_entry_fault(entries.take(n)) is Some,
    ensures
        first_entry_fault(entries) == first_entry_fault(entries.take(n)),
    decreases entries.len() - n,
{
    if n < entries.len() {
        assert(entries.take(n + 1).drop_last() =~= entries.take(n));
        fault_stays(entries, n + 1);
    } else {
        assert(entries.take(n) =~= entries);
    }
}

fn parse_layer(entry: &DeserLayerTopology, index: usize) -> (layer: Result<
    LayerTopology,
    TopologyError,
>)
    ensures
        ({
            let isq = match entry.isq {
                Some(name) => isq_named(ascii_lower_text(name@)),
                None => None,
            };
            let device = match entry.device {
                Some(name) => device_named(name@),
                None => None,
            };
            match layer {
                Ok(l) => {
                    &&& l.isq == isq
                    &&& l.device == device
                    &&& entry.isq is Some ==> isq is Some
                    &&& entry.device is Some ==> device is Some
                },
                Err(TopologyError::Isq { entry: i }) => i == index && entry.isq is Some && isq is None,
                Err(e) => {
                    &&& e == (TopologyError::Device { entry: index })
                    &&& entry.isq is Some ==> isq is Some
                    &&& entry.device is Some && device is None
                },
            }
        }),
{
    let isq: Option<IsqType> = match &entry.isq {
        Some(name) => match parse_isq_value(name.as_str()) {
            Some(isq) => Some(isq),
            None => {
                return Err(TopologyError::Isq { entry: index });
            },
        },
        None => None,
    };
    let device: Option<DeviceLocation> = match &entry.device {
        Some(name) => match parse_device(name.as_str()) {
            Some(device) => Some(device),
            None => {
                return Err(TopologyError::Device { entry: index });
            },
        },
        None => None,
    };
    Ok(LayerTopology { isq, device })
}

/// An entry as it is used: a pattern for names, or a range of layers.
enum ParsedEntry {
    Pattern(Regex, LayerTopology),
    Layers(RangeLayer),
}

fn parse_entry(selector: &str, entry: &DeserLayerTopology, index: usize) -> (parsed: Result<
    ParsedEntry,
    TopologyError,
>)
    ensures
        ({
            let view = (
                selector@,
                match entry.isq {
                    Some(isq) => Some(isq@),
                    None => None,
                },
                match entry.device {
                    Some(device) => Some(device@),
                    None => None,
                },
            );
            match parsed {
                Ok(ParsedEntry::Pattern(regex, layer)) => {
                    &&& entry_fault(view, index) is None
                    &&& is_pattern(selector@)
                    &&& regex_source(regex) == pattern_of(selector@)
                    &&& is_plain(regex)
                    &&& layer == entry_layer(view)
                },
                Ok(ParsedEntry::Layers(range)) => {
                    &&& entry_fault(view, index) is None
                    &&& !is_pattern(selector@)
                    &&& range_of(selector@) == Some((range.start, range.end))
                    &&& range.start < range.end
                    &&& range.layer == entry_layer(view)
                },
                Err(e) => entry_fault(view, index) == Some(e),
            }
        }),
{
    let layer: LayerTopology = parse_layer(entry, index)?;
    let n: usize = selector.unicode_len();
    if n >= 2 && selector.get_char(0) == '/' && selector.get_char(n - 1) == '/' {
        let pattern: &str = selector.substring_char(1, n - 1);
        return match compile_regex(pattern) {
            Some(regex) => Ok(ParsedEntry::Pattern(regex, layer)),
            None => Err(TopologyError::Pattern { entry: index }),
        };
    }
    match parse_range(selector) {
        None => Err(TopologyError::Selector { entry: index }),
        Some((start, end)) => if end <= start {
            Err(TopologyError::Range { start, end })
        } else {
            Ok(ParsedEntry::Layers(RangeLayer { start, end, layer }))
        },
    }
}

fn layers_of(ranges: &Vec<RangeLayer>) -> (layers: Vec<Option<LayerTopology>>)
    ensures
        layers@.len() == largest_end(ranges@),
        forall|i: int| 0 <= i < layers@.len() ==> says(ranges@, i, #[trigger] layers@[i]),
{
    let mut capacity: usize = 0;
    let mut k: usize = 0;
    while k < ranges.len()
        invariant
            k <= ranges@.len(),
            capacity == largest_end(ranges@.take(k as int)),
            forall|b: int| 0 <= b < k ==> (#[trigger] ranges@[b]).end <= capacity,
        decreases ranges@.len() - k,
    {
        assert(ranges@.take(k + 1).drop_last() =~= ranges@.take(k as int));
        if capacity < ranges[k].end {
            capacity = ranges[k].end;
        }
        k += 1;
    }
    assert(ranges@.take(k as int) =~= ranges@);
    let mut layers: Vec<Option<LayerTopology>> = vec![None; capacity];
    let mut ends: Vec<usize> = vec![0; capacity];
    let mut r: usize = 0;
    assert forall|i: int| 0 <= i < capacity implies says(
        ranges@.take(0),
        i,
        #[trigger] layers@[i],
    ) by {}
    while r < ranges.len()
        invariant
            r <= ranges@.len(),
            layers@.len() == capacity,
            ends@.len() == capacity,
            capacity == largest_end(ranges@),
            forall|b: int| 0 <= b < ranges@.len() ==> (#[trigger] ranges@[b]).end <= capacity,
            forall|i: int|
                0 <= i < capacity ==> says(ranges@.take(r as int), i, #[trigger] layers@[i]),
            forall|i: int|
                0 <= i < capacity ==> owner_end(
                    ranges@.take(r as int),
                    i,
                    layers@[i],
                    #[trigger] ends@[i],
                ),
        decreases ranges@.len() - r,
    {
        let range: RangeLayer = ranges[r];
        let ghost old_layers = layers@;
        let ghost old_ends = ends@;
        let mut i: usize = range.start;
        while i < range.end
            invariant
                range.start <= i,
                range.end <= capacity,
                layers@.len() == capacity,
                ends@.len() == capacity,
                old_layers.len() == capacity,
                old_ends.len() == capacity,
                forall|j: int|
                    0 <= j < capacity ==> #[trigger] layers@[j] == if range.start <= j < i && j
                        < range.end && old_ends[j] <= range.end {
                        Some(range.layer)
                    } else {
                        old_layers[j]
                    },
                forall|j: int|
                    0 <= j < capacity ==> #[trigger] ends@[j] == if range.start <= j < i && j
                        < range.end && old_ends[j] <= range.end {
                        range.end
                    } else {
                        old_ends[j]
                    },
            decreases range.end - i,
        {
            assert(ends@[i as int] == old_ends[i as int]);
            assert(layers@[i as int] == old_layers[i as int]);
            if ends[i] <= range.end {
                layers.set(i, Some(range.layer));
                ends.set(i, range.end);
            }
            i += 1;
        }
        proof {
            let a = ranges@.take(r as int);
            let b = ranges@.take(r + 1);
            assert(b =~= a.push(range));
            assert forall|j: int| 0 <= j < capacity implies says(b, j, #[trigger] layers@[j])
                && owner_end(b, j, layers@[j], ends@[j]) by {
                assert(says(a, j, old_layers[j]));
                assert(owner_end(a, j, old_layers[j], old_ends[j]));
                range_added(a, range, j, old_layers[j], old_ends[j]);
            }
            assert forall|j: int| 0 <= j < capacity implies owner_end(
                b,
                j,
                layers@[j],
                #[trigger] ends@[j],
            ) by {
                assert(says(b, j, layers@[j]) && owner_end(b, j, layers@[j], ends@[j]));
            }
        }
        r += 1;
    }
    assert(ranges@.take(r as int) =~= ranges@);
    layers
}

/// Whether this is the end of the range that decides on a layer, and zero if there is none.
spec fn owner_end(ranges: Seq<RangeLayer>, layer: int, said: Option<LayerTopology>, end: usize) -> bool {
    match said {
        Some(l) => exists|w: int| #[trigger]
            decides(ranges, layer, w) && ranges[w].layer == l && ranges[w].end == end,
        None => end == 0,
    }
}

proof fn range_added(
    ranges: Seq<RangeLayer>,
    range: RangeLayer,
    layer: int,
    said: Option<LayerTopology>,
    end: usize,
)
    requires
        says(ranges, layer, said),
        owner_end(ranges, layer, said, end),
    ensures
        ({
            let more = ranges.push(range);
            let takes = covers(range, layer) && end <= range.end;
            let said2 = if takes {
                Some(range.layer)
            } else {
                said
            };
            let end2 = if takes {
                range.end
            } else {
                end
            };
            says(more, layer, said2) && owner_end(more, layer, said2, end2)
        }),
{
    let more = ranges.push(range);
    let n = ranges.len() as int;
    if covers(range, layer) && end <= range.end {
        assert(more[n] == range);
        assert forall|b: int| 0 <= b < more.len() && covers(#[trigger] more[b], layer) implies overrides(
            more,
            n,
            b,
        ) by {
            if b < n {
                assert(more[b] == ranges[b]);
                match said {
                    Some(l) => {
                        let w = choose|w: int| #[trigger]
                            decides(ranges, layer, w) && ranges[w].layer == l && ranges[w].end
                                == end;
                        assert(overrides(ranges, w, b));
                    },
                    None => {
                        assert(!covers(ranges[b], layer));
                    },
                }
            }
        }
        assert(decides(more, layer, n));
    } else {
        match said {
            Some(l) => {
                let w = choose|w: int| #[trigger]
                    decides(ranges, layer, w) && ranges[w].layer == l && ranges[w].end == end;
                assert forall|b: int|
                    0 <= b < more.len() && covers(#[trigger] more[b], layer) implies overrides(
                    more,
                    w,
                    b,
                ) by {
                    if b < n {
                        assert(more[b] == ranges[b]);
                        assert(overrides(ranges, w, b));
                    }
                }
                assert(decides(more, layer, w));
            },
            None => {
                assert forall|b: int| 0 <= b < more.len() implies !covers(
                    #[trigger] more[b],
                    layer,
                ) by {
                    if b < n {
                        assert(more[b] == ranges[b]);
                        assert(!covers(ranges[b], layer));
                    }
                }
            },
        }
    }
}

impl Topology {
    /// Whether the topology says what entries say.
    pub open spec fn is_for(
        &self,
        entries: Seq<(Seq<char>, Option<Seq<char>>, Option<Seq<char>>)>,
    ) -> bool {
        let ranges = range_entries(entries);
        &&& self.layers@.len() == largest_end(ranges)
        &&& forall|i: int|
            0 <= i < self.layers@.len() ==> says(ranges, i, #[trigger] self.layers@[i])
        &&& are_patterns(self.patterns@, pattern_entries(entries))
    }

    /// A topology that says nothing.
    pub fn empty() -> (topology: Self)
        ensures
            topology.layers@.len() == 0,
            topology.patterns@.len() == 0,
            !topology.runtime.sets_any(),
            topology.submodels@.len() == 0,
    {
        Topology {
            layers: Vec::new(),
            patterns: Vec::new(),
            runtime: TopologyRuntime::default(),
            submodels: Vec::new(),
        }
    }

    /// A topology of a number of layers that says nothing of them.
    pub fn with_capacity(cap: usize) -> (topology: Self)
        ensures
            topology.layers@ == Seq::new(cap as nat, |i: int| None::<LayerTopology>),
            topology.patterns@.len() == 0,
            !topology.runtime.sets_any(),
            topology.submodels@.len() == 0,
    {
        let layers: Vec<Option<LayerTopology>> = vec![None; cap];
        assert(layers@ =~= Seq::new(cap as nat, |i: int| None::<LayerTopology>));
        Topology {
            layers,
            patterns: Vec::new(),
            runtime: TopologyRuntime::default(),
            submodels: Vec::new(),
        }
    }

    /// The topology of what was written.
    pub fn from_deser(deser: DeserTopology) -> (topology: Result<Self, TopologyError>)
        ensures
            match topology {
                Ok(t) => {
                    &&& first_entry_fault(all_entries(deser)) is None
                    &&& t.is_for(all_entries(deser))
                    &&& t.runtime == deser.runtime
                    &&& t.submodels == deser.submodels
                },
                Err(e) => first_entry_fault(all_entries(deser)) == Some(e),
            },
    {
        let ghost all = all_entries(deser);
        let mut entries: Vec<(String, DeserLayerTopology)> = into_entries(deser.flat_layers);
        let mut nested: Vec<(String, DeserLayerTopology)> = into_entries(deser.layers);
        let ghost outer = entries@;
        let ghost inner = nested@;
        entries.append(&mut nested);
        proof {
            assert(entry_views(entries@) =~= entry_views(outer) + entry_views(inner));
        }
        let mut ranges: Vec<RangeLayer> = Vec::new();
        let mut patterns: Vec<(Regex, LayerTopology)> = Vec::new();
        let mut index: usize = 0;
        while index < entries.len()
            invariant
                index <= entries@.len(),
                entry_views(entries@) == all,
                all == all_entries(deser),
                first_entry_fault(all.take(index as int)) is None,
                ranges@ == range_entries(all.take(index as int)),
                are_patterns(patterns@, pattern_entries(all.take(index as int))),
            decreases entries@.len() - index,
        {
            let ghost before = patterns@;
            proof {
                assert(all.take(index + 1).drop_last() =~= all.take(index as int));
                assert(all.take(index + 1).last() == entry_view(entries@[index as int]));
            }
            match parse_entry(entries[index].0.as_str(), &entries[index].1, index) {
                Ok(ParsedEntry::Pattern(regex, layer)) => {
                    patterns.push((regex, layer));
                    proof {
                        let expected = pattern_entries(all.take(index + 1));
                        assert forall|i: int| 0 <= i < patterns@.len() implies {
                            &&& regex_source((#[trigger] patterns@[i]).0) == expected[i].0
                            &&& is_plain(patterns@[i].0)
                            &&& patterns@[i].1 == expected[i].1
                        } by {
                            if i < before.len() {
                                assert(patterns@[i] == before[i]);
                            }
                        }
                    }
                },
                Ok(ParsedEntry::Layers(range)) => {
                    ranges.push(range);
                },
                Err(e) => {
                    proof {
                        fault_stays(all, index + 1);
                    }
                    return Err(e);
                },
            }
            index += 1;
        }
        assert(all.take(index as int) =~= all);
        Ok(
            Topology {
                layers: layers_of(&ranges),
                patterns,
                runtime: deser.runtime,
                submodels: deser.submodels,
            },
        )
    }

    /// Whether no layer and no pattern has a device.
    pub fn is_dummy_device_map(&self) -> (dummy: bool)
        ensures
            dummy == {
                &&& forall|i: int|
                    0 <= i < self.layers@.len() ==> match #[trigger] self.layers@[i] {
                        Some(l) => l.device is None,
                        None => true,
                    }
                &&& forall|i: int|
                    0 <= i < self.patterns@.len() ==> (#[trigger] self.patterns@[i]).1.device is None
            },
    {
        let mut i: usize = 0;
        while i < self.layers.len()
            invariant
                i <= self.layers@.len(),
                forall|j: int|
                    0 <= j < i ==> match #[trigger] self.layers@[j] {
                        Some(l) => l.device is None,
                        None => true,
                    },
            decreases self.layers@.len() - i,
        {
            if let Some(layer) = self.layers[i] {
                if layer.device.is_some() {
                    assert(self.layers@[i as int] == Some(layer));
                    return false;
                }
            }
            i += 1;
        }
        let mut k: usize = 0;
        while k < self.patterns.len()
            invariant
                k <= self.patterns@.len(),
                forall|j: int|
                    0 <= j < k ==> (#[trigger] self.patterns@[j]).1.device is None,
            decreases self.patterns@.len() - k,
        {
            if self.patterns[k].1.device.is_some() {
                assert(self.patterns@[k as int].1.device is Some);
                return false;
            }
            k += 1;
        }
        true
    }

    /// The topology that says something of a range of layers.
    pub fn with_range(self, range: std::ops::Range<usize>, layer: LayerTopology) -> (topology: Self)
        ensures
            ({
                let n = self.layers@.len();
                &&& topology.layers@.len() == if n < range.end {
                    range.end as nat
                } else {
                    n
                }
                &&& forall|i: int|
                    0 <= i < topology.layers@.len() ==> #[trigger] topology.layers@[i]
                        == if range.start <= i < range.end {
                        Some(layer)
                    } else if i < n {
                        self.layers@[i]
                    } else {
                        None
                    }
                &&& topology.patterns == self.patterns
                &&& topology.runtime == self.runtime
                &&& topology.submodels == self.submodels
            }),
    {
        let mut layers: Vec<Option<LayerTopology>> = Vec::new();
        let old_len: usize = self.layers.len();
        let len: usize = if old_len < range.end {
            range.end
        } else {
            old_len
        };
        let mut i: usize = 0;
        while i < len
            invariant
                i <= len,
                old_len == self.layers@.len(),
                layers@.len() == i,
                forall|j: int|
                    0 <= j < i ==> #[trigger] layers@[j] == if range.start <= j < range.end {
                        Some(layer)
                    } else if j < old_len {
                        self.layers@[j]
                    } else {
                        None
                    },
            decreases len - i,
        {
            layers.push(
                if range.start <= i && i < range.end {
                    Some(layer)
                } else if i < old_len {
                    self.layers[i]
                } else {
                    None
                },
            );
            i += 1;
        }
        Topology {
            layers,
            patterns: self.patterns,
            runtime: self.runtime,
            submodels: self.submodels,
        }
    }

    /// What is said of a layer.
    pub fn layer_for(&self, layer: usize) -> (said: Option<&LayerTopology>)
        ensures
            match said {
                Some(l) => layer < self.layers@.len() && self.layers@[layer as int] == Some(*l),
                None => layer >= self.layers@.len() || self.layers@[layer as int] is None,
            },
    {
        if layer < self.layers.len() {
            self.layers[layer].as_ref()
        } else {
            None
        }
    }

    /// What is said of a name, by the last pattern that matches it.
    pub fn match_for_name(&self, name: &str) -> (said: Option<LayerTopology>)
        ensures
            said == said_by_last_match(self.patterns@, name@),
    {
        let mut i: usize = self.patterns.len();
        assert(self.patterns@.take(i as int) =~= self.patterns@);
        while i > 0
            invariant
                i <= self.patterns@.len(),
                said_by_last_match(self.patterns@, name@) == said_by_last_match(
                    self.patterns@.take(i as int),
                    name@,
                ),
            decreases i,
        {
            let ghost rest = self.patterns@.take(i as int);
            assert(rest.drop_last() =~= self.patterns@.take(i - 1));
            assert(rest.last() == self.patterns@[i - 1]);
            i -= 1;
            if regex_is_match(&self.patterns[i].0, name) {
                return Some(self.patterns[i].1);
            }
        }
        None
    }

    /// The patterns and what they say, the one that overrides the others first.
    pub fn pattern_overrides(&self) -> (overrides: Vec<(Regex, LayerTopology)>)
        ensures
            overrides@.len() == self.patterns@.len(),
            forall|i: int|
                0 <= i < overrides@.len() ==> {
                    let p = self.patterns@[self.patterns@.len() - 1 - i];
                    &&& regex_source((#[trigger] overrides@[i]).0) == regex_source(p.0)
                    &&& forall|text: Seq<char>| #[trigger]
                        regex_accepts(overrides@[i].0, text) == regex_accepts(p.0, text)
                    &&& overrides@[i].1 == p.1
                },
    {
        let n: usize = self.patterns.len();
        let mut overrides: Vec<(Regex, LayerTopology)> = Vec::new();
        let mut i: usize = 0;
        while i < n
            invariant
                i <= n,
                n == self.patterns@.len(),
                overrides@.len() == i,
                forall|j: int|
                    0 <= j < i ==> {
                        let p = self.patterns@[n - 1 - j];
                        &&& regex_source((#[trigger] overrides@[j]).0) == regex_source(p.0)
                        &&& forall|text: Seq<char>| #[trigger]
                            regex_accepts(overrides@[j].0, text) == regex_accepts(p.0, text)
                        &&& overrides@[j].1 == p.1
                    },
            decreases n - i,
        {
            let at: usize = n - 1 - i;
            overrides.push((clone_regex(&self.patterns[at].0), self.patterns[at].1));
            i += 1;
        }
        overrides
    }

    /// Whether something is said of a layer that takes effect only after loading.
    pub fn requires_post_quantization(&self) -> (required: bool)
        ensures
            required == exists|i: int|
                0 <= i < self.layers@.len() && match #[trigger] self.layers@[i] {
                    Some(l) => l.isq is Some || l.device is Some,
                    None => false,
                },
    {
        let mut i: usize = 0;
        while i < self.layers.len()
            invariant
                i <= self.layers@.len(),
                forall|j: int|
                    0 <= j < i ==> match #[trigger] self.layers@[j] {
                        Some(l) => l.isq is None && l.device is None,
                        None => true,
                    },
            decreases self.layers@.len() - i,
        {
            if let Some(layer) = self.layers[i] {
                if layer.isq.is_some() || layer.device.is_some() {
                    assert(self.layers@[i as int] == Some(layer));
                    return true;
                }
            }
            i += 1;
        }
        false
    }

    /// Whether a submodel is loaded: unless the last word on it is that it is not.
    pub fn loads_submodel(&self, name: &str) -> (loads: bool)
        ensures
            loads == submodel_is_loaded(self.submodels@, name@),
    {
        let n: usize = self.submodels.len();
        let mut i: usize = n;
        assert(self.submodels@.take(n as int) =~= self.submodels@);
        while i > 0
            invariant
                i <= n,
                n == self.submodels@.len(),
                submodel_is_loaded(self.submodels@, name@) == submodel_is_loaded(
                    self.submodels@.take(i as int),
                    name@,
                ),
            decreases i,
        {
            let ghost part = self.submodels@.take(i as int);
            i -= 1;
            assert(part.drop_last() =~= self.submodels@.take(i as int));
            if same_text(self.submodels[i].name.as_str(), name) {
                return self.submodels[i].load;
            }
        }
        true
    }

    /// Refuses images and videos if the submodel for them is not loaded.
    pub fn check_media(&self, has_media: bool) -> (valid: Result<(), TopologyError>)
        ensures
            valid == if has_media && !submodel_is_loaded(self.submodels@, "vision"@) {
                Err::<(), TopologyError>(TopologyError::VisionDisabled)
            } else {
                Ok(())
            },
    {
        if has_media && !self.loads_submodel("vision") {
            return Err(TopologyError::VisionDisabled);
        }
        Ok(())
    }

    /// Makes the settings of the topology.
    pub fn apply_runtime_options(&self, settings: &mut RuntimeSettings)
        ensures
            *final(settings) == self.runtime.applied(*old(settings)),
    {
        self.runtime.apply(settings);
    }
}

/// Whether a submodel is loaded: what comes last on it counts.
pub open spec fn submodel_is_loaded(submodels: Seq<Submodel>, name: Seq<char>) -> bool
    decreases submodels.len(),
{
    if submodels.len() == 0 {
        true
    } else if submodels.last().name@ == name {
        submodels.last().load
    } else {
        submodel_is_loaded(submodels.drop_last(), name)
    }
}

/// At most one range decides on a layer.
pub proof fn one_range_decides(ranges: Seq<RangeLayer>, layer: int, a: int, b: int)
    requires
        decides(ranges, layer, a),
        decides(ranges, layer, b),
    ensures
        a == b,
{
    assert(covers(ranges[a], layer) && covers(ranges[b], layer));
    assert(overrides(ranges, a, b));
    assert(overrides(ranges, b, a));
}

/// Of two ranges with a layer in them the one with the larger end decides, and the later one if
/// the ends are the same.
pub proof fn larger_end_decides(ranges: Seq<RangeLayer>, layer: int, a: int, b: int)
    requires
        0 <= a < ranges.len(),
        0 <= b < ranges.len(),
        covers(ranges[a], layer),
        covers(ranges[b], layer),
        ranges[a].end > ranges[b].end || (ranges[a].end == ranges[b].end && a > b),
    ensures
        !decides(ranges, layer, b),
{
    if decides(ranges, layer, b) {
        assert(overrides(ranges, b, a));
    }
}

proof fn compiled_patterns_say_the_same(
    patterns: Seq<(Regex, LayerTopology)>,
    written: Seq<(Seq<char>, LayerTopology)>,
    name: Seq<char>,
)
    requires
        are_patterns(patterns, written),
    ensures
        said_by_last_match(patterns, name) == written_last_match(written, name),
    decreases patterns.len(),
{
    if patterns.len() > 0 {
        let last = patterns[patterns.len() - 1];
        assert(is_plain(last.0));
        assert(regex_accepts(last.0, name) == pattern_accepts(written.last().0, name));
        compiled_patterns_say_the_same(patterns.drop_last(), written.drop_last(), name);
    }
}

/// Of the patterns of a topology that match a name, the one that was written last decides.
pub proof fn last_written_pattern_decides(
    topology: Topology,
    entries: Seq<(Seq<char>, Option<Seq<char>>, Option<Seq<char>>)>,
    name: Seq<char>,
)
    requires
        topology.is_for(entries),
    ensures
        said_by_last_match(topology.patterns@, name) == written_last_match(
            pattern_entries(entries),
            name,
        ),
{
    compiled_patterns_say_the_same(topology.patterns@, pattern_entries(entries), name);
}

pub const TOPOLOGY_BOOL_UNSET: u8 = 0;

pub const TOPOLOGY_BOOL_FALSE: u8 = 1;

pub const TOPOLOGY_BOOL_TRUE: u8 = 2;

/// The number that stands for a switch that may be unset.
pub open spec fn switch_number(value: Option<bool>) -> u8 {
    match value {
        None => 0,
        Some(false) => 1,
        Some(true) => 2,
    }
}

/// The switch that a number stands for; other numbers stand for one that is unset.
pub open spec fn switch_of(number: u8) -> Option<bool> {
    if number == 1 {
        Some(false)
    } else if number == 2 {
        Some(true)
    } else {
        None
    }
}

/// Stores a switch that may be unset.
pub fn store_optional_bool(cell: &mut u8, value: Option<bool>)
    ensures
        *final(cell) == switch_number(value),
{
    *cell = match value {
        None => TOPOLOGY_BOOL_UNSET,
        Some(false) => TOPOLOGY_BOOL_FALSE,
        Some(true) => TOPOLOGY_BOOL_TRUE,
    };
}

/// The switch that is stored.
pub fn load_optional_bool(cell: u8) -> (value: Option<bool>)
    ensures
        value == switch_of(cell),
{
    if cell == TOPOLOGY_BOOL_FALSE {
        Some(false)
    } else if cell == TOPOLOGY_BOOL_TRUE {
        Some(true)
    } else {
        None
    }
}

/// A switch that was stored is read back.
pub proof fn stored_switch_is_read(value: Option<bool>)
    ensures
        switch_of(switch_number(value)) == value,
{
}

/// The settings of the program that a topology can make.
#[derive(Clone, Copy, Debug, PartialEq, Eq, Structural)]
pub struct RuntimeSettings {
    pub qwen35_cpu_moe: u8,
    pub qwen35_profile: u8,
    pub gguf: GgufCpuRuntimeOptions,
}

impl TopologyRuntime {
    /// Whether anything is set.
    pub open spec fn sets_any(self) -> bool {
        ||| self.qwen35_cpu_moe is Some
        ||| self.qwen35_profile is Some
        ||| self.gguf_cpu_moe_expert_cache is Some
        ||| self.gguf_cpu_moe_q4_1_expert_cache is Some
        ||| self.gguf_cpu_moe_q4k_expert_cache is Some
        ||| self.gguf_cpu_moe_parallel_topk is Some
        ||| self.gguf_cpu_q4k_matmul is Some
        ||| self.gguf_cpu_q4k_matmul_cache is Some
        ||| self.gguf_cpu_q4k_matmul_max_rows is Some
    }

    /// The settings once these are made: all of them, or none if nothing is set.
    pub open spec fn applied(self, settings: RuntimeSettings) -> RuntimeSettings {
        if self.sets_any() {
            RuntimeSettings {
                qwen35_cpu_moe: switch_number(self.qwen35_cpu_moe),
                qwen35_profile: switch_number(self.qwen35_profile),
                gguf: GgufCpuRuntimeOptions {
                    cpu_moe_expert_cache: self.gguf_cpu_moe_expert_cache,
                    cpu_moe_q4_1_expert_cache: self.gguf_cpu_moe_q4_1_expert_cache,
                    cpu_moe_q4k_expert_cache: self.gguf_cpu_moe_q4k_expert_cache,
                    cpu_moe_parallel_topk: self.gguf_cpu_moe_parallel_topk,
                    cpu_q4k_matmul: self.gguf_cpu_q4k_matmul,
                    cpu_q4k_matmul_cache: self.gguf_cpu_q4k_matmul_cache,
                    cpu_q4k_matmul_max_rows: self.gguf_cpu_q4k_matmul_max_rows,
                },
            }
        } else {
            settings
        }
    }

    /// Whether anything is set.
    pub fn has_any(&self) -> (any: bool)
        ensures
            any == self.sets_any(),
    {
        self.qwen35_cpu_moe.is_some() || self.qwen35_profile.is_some()
            || self.gguf_cpu_moe_expert_cache.is_some()
            || self.gguf_cpu_moe_q4_1_expert_cache.is_some()
            || self.gguf_cpu_moe_q4k_expert_cache.is_some()
            || self.gguf_cpu_moe_parallel_topk.is_some() || self.gguf_cpu_q4k_matmul.is_some()
            || self.gguf_cpu_q4k_matmul_cache.is_some()
            || self.gguf_cpu_q4k_matmul_max_rows.is_some()
    }

    /// Makes the settings, if anything is set.
    pub fn apply(&self, settings: &mut RuntimeSettings)
        ensures
            *final(settings) == self.applied(*old(settings)),
    {
        if !self.has_any() {
            return;
        }
        store_optional_bool(&mut settings.qwen35_cpu_moe, self.qwen35_cpu_moe);
        store_optional_bool(&mut settings.qwen35_profile, self.qwen35_profile);
        settings.gguf =
        GgufCpuRuntimeOptions {
            cpu_moe_expert_cache: self.gguf_cpu_moe_expert_cache,
            cpu_moe_q4_1_expert_cache: self.gguf_cpu_moe_q4_1_expert_cache,
            cpu_moe_q4k_expert_cache: self.gguf_cpu_moe_q4k_expert_cache,
            cpu_moe_parallel_topk: self.gguf_cpu_moe_parallel_topk,
            cpu_q4k_matmul: self.gguf_cpu_q4k_matmul,
            cpu_q4k_matmul_cache: self.gguf_cpu_q4k_matmul_cache,
            cpu_q4k_matmul_max_rows: self.gguf_cpu_q4k_matmul_max_rows,
        };
    }
}

/// Whether a switch of the environment is on.
pub open spec fn environment_switch(text: Option<Seq<char>>) -> Option<bool> {
    match text {
        Some(t) => Some(t.len() > 0 && t != "0"@),
        None => None,
    }
}

/// A switch: as stored, else as the first variable of the environment that is there has it,
/// else off.
pub open spec fn chosen_switch(
    stored: u8,
    first: Option<Seq<char>>,
    second: Option<Seq<char>>,
) -> bool {
    match switch_of(stored) {
        Some(on) => on,
        None => match environment_switch(first) {
            Some(on) => on,
            None => match environment_switch(second) {
                Some(on) => on,
                None => false,
            },
        },
    }
}

fn enabled(stored: u8, first: Option<&str>, second: Option<&str>) -> (on: bool)
    ensures
        on == chosen_switch(stored, text_of(first), text_of(second)),
{
    if let Some(on) = load_optional_bool(stored) {
        return on;
    }
    if let Some(on) = env_bool(first) {
        return on;
    }
    match env_bool(second) {
        Some(on) => on,
        None => false,
    }
}

/// Whether mixtures of experts run on the processor, with the values of `MISTRALRS_CPU_MOE` and
/// `MISTRALRS_QWEN35_CPU_MOE`.
pub fn qwen35_cpu_moe_enabled(
    settings: &RuntimeSettings,
    cpu_moe: Option<&str>,
    qwen35_cpu_moe: Option<&str>,
) -> (on: bool)
    ensures
        on == chosen_switch(settings.qwen35_cpu_moe, text_of(cpu_moe), text_of(qwen35_cpu_moe)),
{
    enabled(settings.qwen35_cpu_moe, cpu_moe, qwen35_cpu_moe)
}

/// Whether times are measured, with the values of `MISTRALRS_CPU_PROFILE` and
/// `MISTRALRS_QWEN35_PROFILE`.
pub fn qwen35_profile_enabled(
    settings: &RuntimeSettings,
    cpu_profile: Option<&str>,
    qwen35_profile: Option<&str>,
) -> (on: bool)
    ensures
        on == chosen_switch(
            settings.qwen35_profile,
            text_of(cpu_profile),
            text_of(qwen35_profile),
        ),
{
    enabled(settings.qwen35_profile, cpu_profile, qwen35_profile)
}

/// Devices go by these names: `cpu`, and `cuda` or `metal` with their number in brackets.
pub proof fn devices_go_by_their_names(n: usize)
    ensures
        device_named("cpu"@) == Some(DeviceLocation::Cpu),
        device_named("cuda["@ + decimal_digits(n as nat) + "]"@) == Some(
            DeviceLocation::Cuda { gpu_id: n },
        ),
        device_named("metal["@ + decimal_digits(n as nat) + "]"@) == Some(
            DeviceLocation::Metal { gpu_id: n },
        ),
{
    reveal_strlit("cpu");
    reveal_strlit("cuda[");
    reveal_strlit("metal[");
    reveal_strlit("]");
    digits_write_their_number(n as nat);
    let digits = decimal_digits(n as nat);
    let (c, m) = ("cuda["@, "metal["@);
    let (x, y) = (c + digits + "]"@, m + digits + "]"@);
    assert(c.len() == 5 && m.len() == 6 && "cpu"@.len() == 3);
    assert(x.take(5) =~= c && x.last() == ']' && x.subrange(5, x.len() - 1) =~= digits);
    assert(bracketed(x, c) == Some(digits));
    assert(y.take(6) =~= m && y.last() == ']' && y.subrange(6, y.len() - 1) =~= digits);
    assert(bracketed(y, m) == Some(digits));
    assert(y.take(5)[0] == 'm' && c[0] == 'c');
    assert(bracketed(y, c) is None);
}

/// A name of a device is `cpu`, or begins with `cuda[` or `metal[` for the device that it names,
/// ends with a bracket, and holds digits between.
pub proof fn device_names_tell_their_kind(text: Seq<char>)
    ensures
        device_named(text) == Some(DeviceLocation::Cpu) <==> text == "cpu"@,
        device_named(text) matches Some(DeviceLocation::Cuda { gpu_id }) ==> {
            &&& text.len() > 6
            &&& text.take(5) == "cuda["@
            &&& text.last() == ']'
            &&& all_digits(text.subrange(5, text.len() - 1))
            &&& decimal_value(text.subrange(5, text.len() - 1)) == gpu_id
        },
        device_named(text) matches Some(DeviceLocation::Metal { gpu_id }) ==> {
            &&& text.len() > 7
            &&& text.take(6) == "metal["@
            &&& text.last() == ']'
            &&& all_digits(text.subrange(6, text.len() - 1))
            &&& decimal_value(text.subrange(6, text.len() - 1)) == gpu_id
        },
{
    reveal_strlit("cpu");
    reveal_strlit("cuda[");
    reveal_strlit("metal[");
    assert("cuda["@.len() == 5 && "metal["@.len() == 6);
}

proof fn digits_have_no_dash(n: nat, rest: Seq<char>)
    ensures
        first_dash(decimal_digits(n)) == decimal_digits(n).len(),
        first_dash(decimal_digits(n) + seq!['-'] + rest) == decimal_digits(n).len(),
{
    let digits = decimal_digits(n);
    let text = digits + seq!['-'] + rest;
    digits_write_their_number(n);
    dash_is_inside(digits);
    dash_is_inside(text);
    let at = first_dash(digits);
    if at < digits.len() {
        assert('0' <= digits[at]);
    }
    let len = digits.len() as int;
    assert(text[len] == '-');
    let dash = first_dash(text);
    if dash < len {
        assert(text[dash] == digits[dash]);
        assert('0' <= digits[dash]);
    }
    if dash > len {
        assert(text[len] != '-');
    }
}

/// A selector of two numbers with a dash between is the range from the first up to but not
/// including the second; a selector of one number is that layer alone.
pub proof fn selectors_are_ranges(start: usize, end: usize)
    ensures
        range_of(decimal_digits(start as nat) + seq!['-'] + decimal_digits(end as nat)) == Some(
            (start, end),
        ),
        start < usize::MAX ==> range_of(decimal_digits(start as nat)) == Some(
            (start, (start + 1) as usize),
        ),
{
    let (a, b) = (decimal_digits(start as nat), decimal_digits(end as nat));
    let text = a + seq!['-'] + b;
    digits_have_no_dash(start as nat, b);
    written_number_is_read(start);
    written_number_is_read(end);
    let dash = a.len() as int;
    assert(text.take(dash) =~= a);
    assert(text.skip(dash + 1) =~= b);
}

/// A selector between slashes is a pattern, the one between them; nothing else is.
pub proof fn patterns_stand_between_slashes(pattern: Seq<char>, selector: Seq<char>)
    ensures
        is_pattern(seq!['/'] + pattern + seq!['/']),
        pattern_of(seq!['/'] + pattern + seq!['/']) == pattern,
        is_pattern(selector) ==> selector == seq!['/'] + pattern_of(selector) + seq!['/'],
{
    let text = seq!['/'] + pattern + seq!['/'];
    assert(pattern_of(text) =~= pattern);
    if is_pattern(selector) {
        assert(selector =~= seq!['/'] + pattern_of(selector) + seq!['/']);
    }
}

/// What is said of a layer is what the range says that has it between its start and its end, the
/// end left out, has the largest end of those, and comes last among those with that end. Nothing
/// is said of a layer in no range.
pub proof fn layers_follow_their_deciding_range(
    ranges: Seq<RangeLayer>,
    layer: int,
    said: Option<LayerTopology>,
    w: int,
)
    requires
        says(ranges, layer, said),
    ensures
        0 <= w < ranges.len() && ranges[w].start <= layer < ranges[w].end && (forall|b: int|
            0 <= b < ranges.len() && (#[trigger] ranges[b]).start <= layer < ranges[b].end
                ==> ranges[b].end < ranges[w].end || (ranges[b].end == ranges[w].end && b <= w))
            ==> said == Some(ranges[w].layer),
        said is None <==> forall|b: int|
            0 <= b < ranges.len() ==> !((#[trigger] ranges[b]).start <= layer < ranges[b].end),
{
    if 0 <= w < ranges.len() && ranges[w].start <= layer < ranges[w].end {
        assert(covers(ranges[w], layer));
        if forall|b: int|
            0 <= b < ranges.len() && (#[trigger] ranges[b]).start <= layer < ranges[b].end
                ==> ranges[b].end < ranges[w].end || (ranges[b].end == ranges[w].end && b <= w) {
            assert(said is Some);
            let v = choose|v: int| #[trigger] decides(ranges, layer, v) && ranges[v].layer == said->0;
            assert(covers(ranges[v], layer));
            assert(ranges[v].start <= layer < ranges[v].end);
            assert(overrides(ranges, v, w));
            assert(v == w);
        }
    }
    match said {
        Some(l) => {
            let v = choose|v: int| #[trigger] decides(ranges, layer, v) && ranges[v].layer == l;
            assert(covers(ranges[v], layer));
        },
        None => {
            assert forall|b: int| 0 <= b < ranges.len() implies !((
            #[trigger] ranges[b]).start <= layer < ranges[b].end) by {
                assert(!covers(ranges[b], layer));
            }
        },
    }
}

/// A topology has as many layers as the largest end of its ranges.
pub proof fn topologies_reach_to_the_largest_end(ranges: Seq<RangeLayer>)
    ensures
        forall|b: int|
            0 <= b < ranges.len() ==> (#[trigger] ranges[b]).end <= largest_end(ranges),
        ranges.len() == 0 ==> largest_end(ranges) == 0,
        ranges.len() > 0 ==> exists|b: int|
            0 <= b < ranges.len() && (#[trigger] ranges[b]).end == largest_end(ranges),
    decreases ranges.len(),
{
    if ranges.len() > 0 {
        let front = ranges.drop_last();
        topologies_reach_to_the_largest_end(front);
        let last = ranges.len() - 1;
        assert forall|b: int| 0 <= b < ranges.len() implies (#[trigger] ranges[b]).end
            <= largest_end(ranges) by {
            if b < last {
                assert(front[b] == ranges[b]);
            }
        }
        if front.len() > 0 && largest_end(front) >= ranges[last].end {
            let b = choose|b: int|
                0 <= b < front.len() && (#[trigger] front[b]).end == largest_end(front);
            assert(ranges[b].end == largest_end(ranges));
        } else {
            assert(ranges[last].end == largest_end(ranges));
        }
    }
}

/// Of the patterns that match a name the last one decides; without one nothing is said.
pub proof fn last_matching_pattern_decides(
    patterns: Seq<(Regex, LayerTopology)>,
    name: Seq<char>,
    i: int,
)
    ensures
        0 <= i < patterns.len() && regex_accepts(patterns[i].0, name) && (forall|j: int|
            i < j < patterns.len() ==> !regex_accepts((#[trigger] patterns[j]).0, name))
            ==> said_by_last_match(patterns, name) == Some(patterns[i].1),
        said_by_last_match(patterns, name) is None <==> forall|j: int|
            0 <= j < patterns.len() ==> !regex_accepts((#[trigger] patterns[j]).0, name),
    decreases patterns.len(),
{
    if patterns.len() > 0 {
        let front = patterns.drop_last();
        let last = patterns.len() - 1;
        last_matching_pattern_decides(front, name, i);
        assert(patterns.last() == patterns[last]);
        assert forall|j: int| 0 <= j < last implies front[j] == #[trigger] patterns[j] by {}
        if !regex_accepts(patterns[last].0, name) {
            assert((forall|j: int|
                0 <= j < patterns.len() ==> !regex_accepts((#[trigger] patterns[j]).0, name))
                <==> (forall|j: int|
                0 <= j < front.len() ==> !regex_accepts((#[trigger] front[j]).0, name))) by {
                if forall|j: int|
                    0 <= j < front.len() ==> !regex_accepts((#[trigger] front[j]).0, name) {
                    assert forall|j: int| 0 <= j < patterns.len() implies !regex_accepts(
                        (#[trigger] patterns[j]).0,
                        name,
                    ) by {
                        if j < last {
                            assert(front[j] == patterns[j]);
                        }
                    }
                }
                if forall|j: int|
                    0 <= j < patterns.len() ==> !regex_accepts((#[trigger] patterns[j]).0, name) {
                    assert forall|j: int| 0 <= j < front.len() implies !regex_accepts(
                        (#[trigger] front[j]).0,
                        name,
                    ) by {
                        assert(front[j] == patterns[j]);
                    }
                }
            }
            if 0 <= i < last && regex_accepts(patterns[i].0, name) && (forall|j: int|
                i < j < patterns.len() ==> !regex_accepts((#[trigger] patterns[j]).0, name)) {
                assert forall|j: int| i < j < front.len() implies !regex_accepts(
                    (#[trigger] front[j]).0,
                    name,
                ) by {
                    assert(front[j] == patterns[j]);
                }
                assert(front[i] == patterns[i]);
            }
        }
    }
}

/// Entries come in order, those on the outside before those under a key of their own, and each
/// adds its range or its pattern behind those before it.
pub proof fn entries_come_in_order(
    deser: DeserTopology,
    entries: Seq<(Seq<char>, Option<Seq<char>>, Option<Seq<char>>)>,
    entry: (Seq<char>, Option<Seq<char>>, Option<Seq<char>>),
    start: usize,
    end: usize,
)
    ensures
        all_entries(deser).take(map_entries(deser.flat_layers).len() as int) == map_entries(
            deser.flat_layers,
        ),
        all_entries(deser).skip(map_entries(deser.flat_layers).len() as int) == map_entries(
            deser.layers,
        ),
        is_pattern(entry.0) ==> {
            &&& range_entries(entries.push(entry)) == range_entries(entries)
            &&& pattern_entries(entries.push(entry)) == pattern_entries(entries).push(
                (entry.0.subrange(1, entry.0.len() - 1), entry_layer(entry)),
            )
        },
        !is_pattern(entry.0) && range_of(entry.0) == Some((start, end)) ==> {
            &&& pattern_entries(entries.push(entry)) == pattern_entries(entries)
            &&& range_entries(entries.push(entry)) == range_entries(entries).push(
                RangeLayer { start, end, layer: entry_layer(entry) },
            )
        },
        range_entries(Seq::empty()).len() == 0,
        pattern_entries(Seq::empty()).len() == 0,
{
    let (flat, nested) = (map_entries(deser.flat_layers), map_entries(deser.layers));
    assert((flat + nested).take(flat.len() as int) =~= flat);
    assert((flat + nested).skip(flat.len() as int) =~= nested);
    assert(entries.push(entry).drop_last() =~= entries);
}

/// What an entry says of its layers are the quantization and the device that it names; an entry
/// that names one that is not there is refused, for its quantization first, then for its device,
/// then for its selector.
pub proof fn entries_say_what_they_name(
    entry: (Seq<char>, Option<Seq<char>>, Option<Seq<char>>),
    index: usize,
)
    ensures
        entry_layer(entry).isq == match entry.1 {
            Some(name) => isq_named(ascii_lower_text(name)),
            None => None,
        },
        entry_layer(entry).device == match entry.2 {
            Some(name) => device_named(name),
            None => None,
        },
        entry_fault(entry, index) == Some(TopologyError::Isq { entry: index }) <==> (entry.1
            matches Some(name) && isq_named(ascii_lower_text(name)) is None),
        entry_fault(entry, index) == Some(TopologyError::Device { entry: index }) <==> (
        entry.1 is None || entry_layer(entry).isq is Some) && (entry.2 matches Some(name)
            && device_named(name) is None),
        (entry.1 is None || entry_layer(entry).isq is Some) && (entry.2 is None || entry_layer(
            entry,
        ).device is Some) ==> {
            &&& is_pattern(entry.0) ==> (entry_fault(entry, index) is None <==> pattern_compiles(
                entry.0.subrange(1, entry.0.len() - 1),
            ))
            &&& !is_pattern(entry.0) ==> (entry_fault(entry, index) is None <==> range_of(
                entry.0,
            ) is Some && (range_of(entry.0)->0).0 < (range_of(entry.0)->0).1)
        },
{
}

/// The first entry with a fault refuses the topology.
pub proof fn first_wrong_entry_refuses(
    entries: Seq<(Seq<char>, Option<Seq<char>>, Option<Seq<char>>)>,
    first: int,
)
    requires
        0 <= first <= entries.len() <= usize::MAX,
        forall|i: int| 0 <= i < first ==> entry_fault(#[trigger] entries[i], i as usize) is None,
        first < entries.len() ==> entry_fault(entries[first], first as usize) is Some,
    ensures
        first_entry_fault(entries) == if first < entries.len() {
            entry_fault(entries[first], first as usize)
        } else {
            None
        },
    decreases entries.len(),
{
    if entries.len() > 0 {
        let front = entries.drop_last();
        let last = entries.len() - 1;
        assert forall|i: int| 0 <= i < front.len() implies front[i] == #[trigger] entries[i] by {}
        if first < entries.len() {
            assert forall|i: int| 0 <= i < first implies entry_fault(
                #[trigger] front[i],
                i as usize,
            ) is None by {
                assert(front[i] == entries[i]);
            }
            first_wrong_entry_refuses(front, first);
        } else {
            assert(entry_fault(entries[last], last as usize) is None);
            assert forall|i: int| 0 <= i < last implies entry_fault(
                #[trigger] front[i],
                i as usize,
            ) is None by {
                assert(front[i] == entries[i]);
            }
            first_wrong_entry_refuses(front, last);
        }
    }
}

/// The last word on a submodel counts; one that nothing is said of is loaded.
pub proof fn last_word_on_a_submodel_counts(submodels: Seq<Submodel>, name: Seq<char>, i: int)
    ensures
        0 <= i < submodels.len() && submodels[i].name@ == name && (forall|j: int|
            i < j < submodels.len() ==> (#[trigger] submodels[j]).name@ != name)
            ==> submodel_is_loaded(submodels, name) == submodels[i].load,
        (forall|j: int| 0 <= j < submodels.len() ==> (#[trigger] submodels[j]).name@ != name)
            ==> submodel_is_loaded(submodels, name),
    decreases submodels.len(),
{
    if submodels.len() > 0 {
        let front = submodels.drop_last();
        let last = submodels.len() - 1;
        last_word_on_a_submodel_counts(front, name, i);
        assert(submodels.last() == submodels[last]);
        assert forall|j: int| 0 <= j < last implies front[j] == #[trigger] submodels[j] by {}
        if submodels[last].name@ != name {
            if 0 <= i < last && submodels[i].name@ == name && (forall|j: int|
                i < j < submodels.len() ==> (#[trigger] submodels[j]).name@ != name) {
                assert(front[i] == submodels[i]);
                assert forall|j: int| i < j < front.len() implies (
                #[trigger] front[j]).name@ != name by {
                    assert(front[j] == submodels[j]);
                }
            }
            if forall|j: int| 0 <= j < submodels.len() ==> (#[trigger] submodels[j]).name@ != name {
                assert forall|j: int| 0 <= j < front.len() implies (
                #[trigger] front[j]).name@ != name by {
                    assert(front[j] == submodels[j]);
                }
            }
        }
    }
}

/// The numbers of switches: 0 is unset, 1 is off, 2 is on.
pub proof fn switches_have_their_numbers(value: Option<bool>, number: u8)
    ensures
        switch_number(value) == 0 <==> value is None,
        switch_number(value) == 1 <==> value == Some(false),
        switch_number(value) == 2 <==> value == Some(true),
        switch_of(number) == Some(false) <==> number == 1,
        switch_of(number) == Some(true) <==> number == 2,
        switch_of(number) is None <==> number != 1 && number != 2,
        TOPOLOGY_BOOL_UNSET == 0 && TOPOLOGY_BOOL_FALSE == 1 && TOPOLOGY_BOOL_TRUE == 2,
{
}

/// A switch that is stored counts; without one the first variable that is there, whatever it
/// holds; then the second; and it is off without any. A variable is off if it is empty or `0`.
pub proof fn stored_switches_come_first(
    stored: u8,
    first: Option<Seq<char>>,
    second: Option<Seq<char>>,
    text: Seq<char>,
)
    ensures
        stored == 1 ==> !chosen_switch(stored, first, second),
        stored == 2 ==> chosen_switch(stored, first, second),
        stored == 0 ==> {
            &&& chosen_switch(stored, Some(text), second) <==> !(text.len() == 0 || (text.len()
                == 1 && text[0] == '0'))
            &&& chosen_switch(stored, None, Some(text)) <==> !(text.len() == 0 || (text.len() == 1
                && text[0] == '0'))
            &&& !chosen_switch(stored, None, None)
        },
{
    reveal_strlit("0");
    if text.len() == 1 && text[0] == '0' {
        assert(text =~= "0"@);
    }
}

/// The settings of a topology are made as they are written, each for its own, if it makes any;
/// otherwise nothing changes.
pub proof fn settings_are_made_as_written(runtime: TopologyRuntime, before: RuntimeSettings)
    ensures
        runtime.sets_any() <==> !(runtime.qwen35_cpu_moe is None && runtime.qwen35_profile is None
            && runtime.gguf_cpu_moe_expert_cache is None
            && runtime.gguf_cpu_moe_q4_1_expert_cache is None
            && runtime.gguf_cpu_moe_q4k_expert_cache is None
            && runtime.gguf_cpu_moe_parallel_topk is None && runtime.gguf_cpu_q4k_matmul is None
            && runtime.gguf_cpu_q4k_matmul_cache is None
            && runtime.gguf_cpu_q4k_matmul_max_rows is None),
        !runtime.sets_any() ==> runtime.applied(before) == before,
        runtime.sets_any() ==> {
            let after = runtime.applied(before);
            &&& switch_of(after.qwen35_cpu_moe) == runtime.qwen35_cpu_moe
            &&& switch_of(after.qwen35_profile) == runtime.qwen35_profile
            &&& after.gguf.cpu_moe_expert_cache == runtime.gguf_cpu_moe_expert_cache
            &&& after.gguf.cpu_moe_q4_1_expert_cache == runtime.gguf_cpu_moe_q4_1_expert_cache
            &&& after.gguf.cpu_moe_q4k_expert_cache == runtime.gguf_cpu_moe_q4k_expert_cache
            &&& after.gguf.cpu_moe_parallel_topk == runtime.gguf_cpu_moe_parallel_topk
            &&& after.gguf.cpu_q4k_matmul == runtime.gguf_cpu_q4k_matmul
            &&& after.gguf.cpu_q4k_matmul_cache == runtime.gguf_cpu_q4k_matmul_cache
            &&& after.gguf.cpu_q4k_matmul_max_rows == runtime.gguf_cpu_q4k_matmul_max_rows
        },
{
}

/// A range that ends where it starts or before is refused with its start and its end.
pub proof fn empty_ranges_are_named(
    entry: (Seq<char>, Option<Seq<char>>, Option<Seq<char>>),
    index: usize,
)
    ensures
        entry_fault(entry, index) matches Some(TopologyError::Range { start, end }) ==> range_of(
            entry.0,
        ) == Some((start, end)) && end <= start,
        entry_fault(entry, index) matches Some(TopologyError::Selector { entry: i }) ==> i == index
            && range_of(entry.0) is None,
        entry_fault(entry, index) matches Some(TopologyError::Pattern { entry: i }) ==> i == index
            && !pattern_compiles(pattern_of(entry.0)),
{
}

} // verus!
