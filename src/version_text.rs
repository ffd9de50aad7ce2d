//! Splitting a dotted version string into its numeric fields.
use vstd::prelude::*;
use crate::text::{is_digit, numeral_value, is_numeral};

verus! {

/// The index of the first `.` at or after `i`, or the length of `s`.
pub open spec fn field_end(s: Seq<char>, i: int) -> int
    decreases s.len() - i,
{
    if i >= s.len() {
        s.len() as int
    } else if s[i] == '.' {
        i
    } else {
        field_end(s, i + 1)
    }
}

/// A numeral whose value fits a non-negative `i32`.
pub open spec fn is_field(t: Seq<char>) -> bool {
    is_numeral(t) && numeral_value(t) <= i32::MAX
}

/// The numeric field of `s` that starts at `start`, if it is one.
pub open spec fn field_value(s: Seq<char>, start: int) -> Option<i32> {
    let t = s.subrange(start, field_end(s, start));
    if is_field(t) {
        Some(numeral_value(t) as i32)
    } else {
        None
    }
}

pub proof fn lemma_field_end_bounds(s: Seq<char>, i: int)
    requires
        0 <= i,
    ensures
        i <= s.len() ==> i <= field_end(s, i) <= s.len(),
        field_end(s, i) < s.len() ==> s[field_end(s, i)] == '.',
        forall|k: int| i <= k < field_end(s, i) ==> s[k] != '.',
    decreases s.len() - i,
{
    if i < s.len() && s[i] != '.' {
        lemma_field_end_bounds(s, i + 1);
    }
}

/// Reads the numeric field of `cs` that starts at `start`: its value, if it
/// is a numeral that fits, and where it ends.
pub fn read_field(cs: &Vec<char>, start: usize) -> (r: (Option<i32>, usize))
    requires
        start <= cs@.len(),
    ensures
        r.1 as int == field_end(cs@, start as int),
        r.0 == field_value(cs@, start as int),
{
    let ghost s = cs@;
    let mut i: usize = start;
    let mut value: u64 = 0;
    let mut digits_only: bool = true;
    let mut too_large: bool = false;
    while i < cs.len() && cs[i] != '.'
        invariant
            start <= i <= s.len(),
            s == cs@,
            field_end(s, start as int) == field_end(s, i as int),
            digits_only ==> forall|k: int| start <= k < i ==> is_digit(#[trigger] s[k]),
            !digits_only ==> exists|k: int| start <= k < i && !is_digit(#[trigger] s[k]),
            value <= i32::MAX,
            digits_only && !too_large ==> value == numeral_value(s.subrange(start as int, i as int)),
            digits_only && too_large ==> numeral_value(s.subrange(start as int, i as int)) > i32::MAX,
        decreases s.len() - i,
    {
        let c = cs[i];
        proof {
            assert(s.subrange(start as int, i + 1).drop_last() =~= s.subrange(start as int, i as int));
            assert(s.subrange(start as int, i + 1).last() == c);
        }
        if '0' <= c && c <= '9' {
            if !too_large {
                let d = (c as u32 - '0' as u32) as u64;
                let next = value * 10 + d;
                if next > i32::MAX as u64 {
                    too_large = true;
                } else {
                    value = next;
                }
            }
        } else {
            digits_only = false;
        }
        i = i + 1;
    }
    proof {
        lemma_field_end_bounds(s, start as int);
    }
    let ghost t = s.subrange(start as int, i as int);
    if digits_only && !too_large && i > start {
        assert(is_numeral(t)) by {
            assert forall|k: int| 0 <= k < t.len() implies is_digit(#[trigger] t[k]) by {
                assert(t[k] == s[start + k]);
            }
        }
        (Some(value as i32), i)
    } else {
        proof {
            if !digits_only {
                let k = choose|k: int| start <= k < i && !is_digit(#[trigger] s[k]);
                assert(t[k - start] == s[k]);
            }
        }
        (None, i)
    }
}

} // verus!
