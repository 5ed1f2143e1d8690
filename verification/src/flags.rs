//! Switches that are read from the environment; the caller hands over what it found there.
use crate::text::{ascii_lower_text, blank, chars_are, is_blank, lower_chars, same_text};
use vstd::prelude::*;

verus! {

/// A switch is on unless it is blank, `0` or `false` in any capitalisation.
pub open spec fn reads_as_on(value: Seq<char>) -> bool {
    !is_blank(value) && value != "0"@ && ascii_lower_text(value) != "false"@
}

/// Whether a switch with this value is on.
pub fn flag_is_on(value: &str) -> (on: bool)
    ensures
        on == reads_as_on(value@),
{
    let lower: Vec<char> = lower_chars(value);
    !blank(value) && !same_text(value, "0") && !chars_are(&lower, "false")
}

/// Whether a switch with this value is on: unless it is `0` or `false` in any capitalisation.
pub fn switched_on(value: &str) -> (on: bool)
    ensures
        on == (value@ != "0"@ && ascii_lower_text(value@) != "false"@),
{
    let lower: Vec<char> = lower_chars(value);
    !same_text(value, "0") && !chars_are(&lower, "false")
}

/// A switch that is `default` when unset, else on unless it is blank, `0` or `false`.
pub fn flag_or(value: Option<&str>, default: bool) -> (on: bool)
    ensures
        on == match value {
            Some(text) => reads_as_on(text@),
            None => default,
        },
{
    match value {
        Some(text) => flag_is_on(text),
        None => default,
    }
}

/// A switch with two states that is unset when it is not there: on unless empty or `0`.
pub fn env_bool(value: Option<&str>) -> (on: Option<bool>)
    ensures
        on == match value {
            Some(text) => Some(text@.len() > 0 && text@ != "0"@),
            None => None,
        },
{
    match value {
        Some(text) => {
            let empty: bool = same_text(text, "");
            proof {
                reveal_strlit("");
                assert(""@ =~= Seq::<char>::empty());
                assert(empty == (text@.len() == 0)) by {
                    if text@.len() == 0 {
                        assert(text@ =~= ""@);
                    }
                }
            }
            Some(!empty && !same_text(text, "0"))
        },
        None => None,
    }
}

/// What turns a switch off: a blank, `0`, and the word `false` with each of its letters small or
/// capital. Anything else turns it on.
pub proof fn blank_zero_and_false_are_off(value: Seq<char>)
    ensures
        reads_as_on(value) <==> {
            &&& !is_blank(value)
            &&& value != seq!['0']
            &&& !(value.len() == 5 && (value[0] == 'f' || value[0] == 'F') && (value[1] == 'a'
                || value[1] == 'A') && (value[2] == 'l' || value[2] == 'L') && (value[3] == 's'
                || value[3] == 'S') && (value[4] == 'e' || value[4] == 'E'))
        },
{
    reveal_strlit("0");
    reveal_strlit("false");
    assert("0"@ =~= seq!['0']);
    let lower = ascii_lower_text(value);
    if value.len() == 5 {
        assert(lower.len() == 5);
        assert(lower[0] == crate::text::ascii_lower(value[0]));
        assert(lower[1] == crate::text::ascii_lower(value[1]));
        assert(lower[2] == crate::text::ascii_lower(value[2]));
        assert(lower[3] == crate::text::ascii_lower(value[3]));
        assert(lower[4] == crate::text::ascii_lower(value[4]));
        let word = seq!['f', 'a', 'l', 's', 'e'];
        assert("false"@ =~= word);
        assert(lower == word <==> lower =~= word);
    }
}

} // verus!
