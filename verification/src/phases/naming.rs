//! The name forms that naming gives style and class bindings: a style property name is
//! hyphenated unless it is a custom property (`--name`), and in the compatibility mode the
//! `!important` suffix of a style or class name is dropped.

use vstd::prelude::*;
use crate::text::{
    ascii_lower, char_is_uppercase, chars_of, find_str, is_upper, prefix_to, push_char, seq_starts_with, spec_find,
    starts_with, to_ascii_lowercase,
};

verus! {

/// Each uppercase character preceded by `-` and written in ASCII lowercase.
pub open spec fn spec_hyphenate_all(s: Seq<char>) -> Seq<char>
    decreases s.len(),
{
    if s.len() == 0 {
        Seq::empty()
    } else {
        spec_hyphenate_all(s.drop_last()) + if is_upper(s.last()) {
            seq!['-', ascii_lower(s.last())]
        } else {
            seq![s.last()]
        }
    }
}

/// Hyphenate a name: a `-` before each uppercase character, which becomes ASCII lowercase.
pub fn hyphenate(value: &str) -> (r: String)
    ensures
        r@ == spec_hyphenate_all(value@),
{
    let chars = chars_of(value);
    let mut result = String::new();
    let mut i: usize = 0;
    while i < chars.len()
        invariant
            i <= chars@.len(),
            chars@ == value@,
            result@ == spec_hyphenate_all(value@.take(i as int)),
        decreases chars.len() - i,
    {
        let c = chars[i];
        if char_is_uppercase(c) {
            push_char(&mut result, '-');
            push_char(&mut result, to_ascii_lowercase(c));
        } else {
            push_char(&mut result, c);
        }
        proof {
            assert(value@.take(i + 1).drop_last() =~= value@.take(i as int));
            assert(value@.take(i + 1).last() == c);
        }
        i += 1;
    }
    proof {
        assert(value@.take(value@.len() as int) =~= value@);
    }
    result
}

/// The name of a style property as bound: a custom property (`--name`) as it is, any other
/// hyphenated.
pub open spec fn spec_normalize_style_prop_name(name: Seq<char>) -> Seq<char> {
    if seq_starts_with(name, "--"@) {
        name
    } else {
        spec_hyphenate_all(name)
    }
}

/// Normalize the name of a style property.
pub fn normalize_style_prop_name(name: &str) -> (r: String)
    ensures
        r@ == spec_normalize_style_prop_name(name@),
{
    if starts_with(name, "--") {
        name.to_string()
    } else {
        hyphenate(name)
    }
}

/// A name without `!important`: everything from its first occurrence on is dropped.
pub open spec fn spec_strip_important(name: Seq<char>) -> Seq<char> {
    match spec_find(name, "!important"@) {
        Some(i) => name.take(i),
        None => name,
    }
}

/// Drop `!important` and what follows it from a name.
pub fn strip_important(name: &str) -> (r: String)
    ensures
        r@ == spec_strip_important(name@),
{
    match find_str(name, "!important") {
        Some(idx) => {
            proof {
                crate::text::lemma_find_bounds(name@, "!important"@);
            }
            let r = prefix_to(name, idx);
            proof {
                assert(r@ =~= name@.take(idx as int));
            }
            r
        },
        None => name.to_string(),
    }
}

} // verus!
