//! The quantizations that weights can be given in place, by name.
use crate::text::{ascii_lower_text, chars_are, lower_chars};
use vstd::prelude::*;

verus! {

/// A quantization of weights.
#[derive(Clone, Copy, Debug, PartialEq, Eq, Structural)]
pub enum IsqType {
    Q4_0,
    Q4_1,
    Q5_0,
    Q5_1,
    Q8_0,
    Q8_1,
    Q2K,
    Q3K,
    Q4K,
    Q5K,
    Q6K,
    Q8K,
    F8Q8,
    HQZ4,
}

/// The quantization of a name in small letters.
pub open spec fn isq_named(name: Seq<char>) -> Option<IsqType> {
    if name == "q4_0"@ {
        Some(IsqType::Q4_0)
    } else if name == "q4_1"@ {
        Some(IsqType::Q4_1)
    } else if name == "q5_0"@ {
        Some(IsqType::Q5_0)
    } else if name == "q5_1"@ {
        Some(IsqType::Q5_1)
    } else if name == "q8_0"@ {
        Some(IsqType::Q8_0)
    } else if name == "q8_1"@ {
        Some(IsqType::Q8_1)
    } else if name == "q2k"@ {
        Some(IsqType::Q2K)
    } else if name == "q3k"@ {
        Some(IsqType::Q3K)
    } else if name == "q4k"@ {
        Some(IsqType::Q4K)
    } else if name == "q5k"@ {
        Some(IsqType::Q5K)
    } else if name == "q6k"@ {
        Some(IsqType::Q6K)
    } else if name == "q8k"@ {
        Some(IsqType::Q8K)
    } else if name == "f8q8"@ {
        Some(IsqType::F8Q8)
    } else if name == "hqz4"@ {
        Some(IsqType::HQZ4)
    } else {
        None
    }
}

/// The quantization of a name in any capitalisation.
pub fn parse_isq_value(name: &str) -> (isq: Option<IsqType>)
    ensures
        isq == isq_named(ascii_lower_text(name@)),
{
    let lower: Vec<char> = lower_chars(name);
    if chars_are(&lower, "q4_0") {
        Some(IsqType::Q4_0)
    } else if chars_are(&lower, "q4_1") {
        Some(IsqType::Q4_1)
    } else if chars_are(&lower, "q5_0") {
        Some(IsqType::Q5_0)
    } else if chars_are(&lower, "q5_1") {
        Some(IsqType::Q5_1)
    } else if chars_are(&lower, "q8_0") {
        Some(IsqType::Q8_0)
    } else if chars_are(&lower, "q8_1") {
        Some(IsqType::Q8_1)
    } else if chars_are(&lower, "q2k") {
        Some(IsqType::Q2K)
    } else if chars_are(&lower, "q3k") {
        Some(IsqType::Q3K)
    } else if chars_are(&lower, "q4k") {
        Some(IsqType::Q4K)
    } else if chars_are(&lower, "q5k") {
        Some(IsqType::Q5K)
    } else if chars_are(&lower, "q6k") {
        Some(IsqType::Q6K)
    } else if chars_are(&lower, "q8k") {
        Some(IsqType::Q8K)
    } else if chars_are(&lower, "f8q8") {
        Some(IsqType::F8Q8)
    } else if chars_are(&lower, "hqz4") {
        Some(IsqType::HQZ4)
    } else {
        None
    }
}

/// Each quantization goes by its own name, in small letters, and by no other.
pub proof fn quantizations_go_by_their_names(name: Seq<char>)
    ensures
        isq_named(name) == Some(IsqType::Q4_0) <==> name == "q4_0"@,
        isq_named(name) == Some(IsqType::Q4_1) <==> name == "q4_1"@,
        isq_named(name) == Some(IsqType::Q5_0) <==> name == "q5_0"@,
        isq_named(name) == Some(IsqType::Q5_1) <==> name == "q5_1"@,
        isq_named(name) == Some(IsqType::Q8_0) <==> name == "q8_0"@,
        isq_named(name) == Some(IsqType::Q8_1) <==> name == "q8_1"@,
        isq_named(name) == Some(IsqType::Q2K) <==> name == "q2k"@,
        isq_named(name) == Some(IsqType::Q3K) <==> name == "q3k"@,
        isq_named(name) == Some(IsqType::Q4K) <==> name == "q4k"@,
        isq_named(name) == Some(IsqType::Q5K) <==> name == "q5k"@,
        isq_named(name) == Some(IsqType::Q6K) <==> name == "q6k"@,
        isq_named(name) == Some(IsqType::Q8K) <==> name == "q8k"@,
        isq_named(name) == Some(IsqType::F8Q8) <==> name == "f8q8"@,
        isq_named(name) == Some(IsqType::HQZ4) <==> name == "hqz4"@,
{
    reveal_strlit("q4_0");
    reveal_strlit("q4_1");
    reveal_strlit("q5_0");
    reveal_strlit("q5_1");
    reveal_strlit("q8_0");
    reveal_strlit("q8_1");
    reveal_strlit("q2k");
    reveal_strlit("q3k");
    reveal_strlit("q4k");
    reveal_strlit("q5k");
    reveal_strlit("q6k");
    reveal_strlit("q8k");
    reveal_strlit("f8q8");
    reveal_strlit("hqz4");
    if name.len() == 3 {
        assert(name == "q2k"@ ==> name[1] == '2');
        assert(name == "q3k"@ ==> name[1] == '3');
        assert(name == "q4k"@ ==> name[1] == '4');
        assert(name == "q5k"@ ==> name[1] == '5');
        assert(name == "q6k"@ ==> name[1] == '6');
        assert(name == "q8k"@ ==> name[1] == '8');
    } else if name.len() == 4 {
        assert(name == "q4_0"@ ==> name[0] == 'q' && name[1] == '4' && name[3] == '0');
        assert(name == "q4_1"@ ==> name[0] == 'q' && name[1] == '4' && name[3] == '1');
        assert(name == "q5_0"@ ==> name[0] == 'q' && name[1] == '5' && name[3] == '0');
        assert(name == "q5_1"@ ==> name[0] == 'q' && name[1] == '5' && name[3] == '1');
        assert(name == "q8_0"@ ==> name[0] == 'q' && name[1] == '8' && name[3] == '0');
        assert(name == "q8_1"@ ==> name[0] == 'q' && name[1] == '8' && name[3] == '1');
        assert(name == "f8q8"@ ==> name[0] == 'f' && name[1] == '8' && name[3] == '8');
        assert(name == "hqz4"@ ==> name[0] == 'h' && name[1] == 'q' && name[3] == '4');
    }
}

} // verus!
