//! Value format templates of sensor widgets, such as `{:.1} °C`: the text
//! around the placeholder and the number of decimals it asks for.

use vstd::prelude::*;
use crate::text::{
    chars_to_string, find, first_occurrence, parse_unsigned, parse_unsigned_spec, push_all, str_chars,
};

verus! {

/// The parts of a value format template: the text before the value, the
/// number of decimals, and the text after it.
#[derive(Debug)]
pub struct FormatParts {
    pub prefix: String,
    pub decimals: usize,
    pub suffix: String,
}

/// The decimals a placeholder's inside asks for: `:.<n>` gives `n`,
/// anything else (or a count that does not read as a `usize`) none.
pub open spec fn decimals_spec(spec: Seq<char>) -> nat {
    if ":."@.is_prefix_of(spec) {
        match parse_unsigned_spec(spec.skip(2), 10, usize::MAX as nat) {
            Some(n) => n,
            None => 0,
        }
    } else {
        0
    }
}

/// The parts of template `fmt`: split at its first `{` and the first `}`
/// after it; `None` when it has no such placeholder (the value is then
/// shown alone, without decimals).
pub open spec fn format_parts_spec(fmt: Seq<char>) -> Option<(Seq<char>, nat, Seq<char>)> {
    match first_occurrence(fmt, "{"@) {
        Some(open) => match first_occurrence(fmt.skip(open), "}"@) {
            Some(rel) => {
                let close = open + rel;
                Some((fmt.take(open), decimals_spec(fmt.subrange(open + 1, close)), fmt.skip(close + 1)))
            },
            None => None,
        },
        None => None,
    }
}

/// The parts of a value format template, if it has a placeholder.
pub fn format_parts(fmt: &str) -> (r: Option<FormatParts>)
    ensures
        match format_parts_spec(fmt@) {
            Some((p, d, s)) => r is Some && r.unwrap().prefix@ == p && r.unwrap().decimals == d
                && r.unwrap().suffix@ == s,
            None => r is None,
        },
{
    proof {
        reveal_strlit("{");
        reveal_strlit("}");
        reveal_strlit(":.");
    }
    let v = str_chars(fmt);
    let n = v.len();
    let lb = str_chars("{");
    let rb = str_chars("}");
    assert(lb@.len() == 1 && rb@.len() == 1);
    let open = match find(&v, &lb) {
        Some(i) => i,
        None => {
            return None;
        },
    };
    assert(open < n);
    let rest = &v.as_slice()[open..n];
    assert(rest@ =~= v@.skip(open as int));
    let rel = match find(rest, &rb) {
        Some(j) => j,
        None => {
            return None;
        },
    };
    assert(v@[open as int] == v@.subrange(open as int, open + 1)[0]);
    assert(rest@[rel as int] == rest@.subrange(rel as int, rel + 1)[0]);
    assert(rest@[0] == '{' && rest@[rel as int] == '}');
    let close = open + rel;
    assert(open < close < n);
    let inner = &v.as_slice()[open + 1..close];
    assert(inner@ =~= v@.subrange(open + 1, close as int));
    let colon_dot = str_chars(":.");
    let decimals: usize = if crate::text::starts_with(inner, &colon_dot) {
        let digits = &inner[2..inner.len()];
        assert(digits@ =~= inner@.skip(2));
        match parse_unsigned(digits, 10, usize::MAX as u64) {
            Some(d) => d as usize,
            None => 0,
        }
    } else {
        0
    };
    let mut p: Vec<char> = Vec::new();
    push_all(&mut p, &v.as_slice()[0..open]);
    assert(p@ =~= v@.take(open as int));
    let mut s: Vec<char> = Vec::new();
    push_all(&mut s, &v.as_slice()[close + 1..n]);
    assert(s@ =~= v@.skip(close + 1));
    Some(FormatParts { prefix: chars_to_string(&p), decimals, suffix: chars_to_string(&s) })
}

} // verus!
