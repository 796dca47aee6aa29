//! Character-level text helpers: conversions between strings and character
//! vectors, decimal and hexadecimal rendering, and prefix/substring tests.

use vstd::prelude::*;
use vstd::string::StrSliceExecFns;

verus! {

/// The character of decimal digit `d` (0..=9).
pub open spec fn dec_digit(d: int) -> char {
    (48 + d) as char
}

/// The lowercase character of hexadecimal digit `d` (0..=15).
pub open spec fn hex_digit(d: int) -> char {
    if d < 10 { (48 + d) as char } else { (87 + d) as char }
}

/// Decimal rendering of `n`, without leading zeros.
pub open spec fn dec(n: nat) -> Seq<char>
    decreases n,
{
    if n < 10 {
        seq![dec_digit(n as int)]
    } else {
        dec(n / 10).push(dec_digit((n % 10) as int))
    }
}

/// Lowercase hexadecimal rendering of a 16-bit value, zero-padded to four digits.
pub open spec fn hex4(x: u16) -> Seq<char> {
    seq![
        hex_digit(x as int / 0x1000),
        hex_digit((x as int / 0x100) % 0x10),
        hex_digit((x as int / 0x10) % 0x10),
        hex_digit(x as int % 0x10),
    ]
}

/// Lowercase hexadecimal rendering of a byte, zero-padded to two digits.
pub open spec fn hex2(x: u8) -> Seq<char> {
    seq![hex_digit(x as int / 0x10), hex_digit(x as int % 0x10)]
}

/// Whether `s` contains `needle` starting at character index `i`.
pub open spec fn occurs_at(s: Seq<char>, needle: Seq<char>, i: int) -> bool {
    0 <= i && i + needle.len() <= s.len() && s.subrange(i, i + needle.len() as int) == needle
}

/// Whether `needle` occurs anywhere in `s`.
pub open spec fn contains_seq(s: Seq<char>, needle: Seq<char>) -> bool {
    exists|i: int| occurs_at(s, needle, i)
}

/// Whether `s` ends with `suffix`.
pub open spec fn ends_with_seq(s: Seq<char>, suffix: Seq<char>) -> bool {
    suffix.len() <= s.len() && s.subrange(s.len() - suffix.len(), s.len() as int) == suffix
}

/// Calls std's `String::push`. Claimed: the string's characters afterwards
/// are its characters before, followed by `c`.
#[verifier::external_body]
pub(crate) fn string_push(s: &mut String, c: char)
    ensures
        final(s)@ == old(s)@.push(c),
{
    s.push(c);
}

/// The characters of a string slice, in order.
pub fn str_chars(s: &str) -> (v: Vec<char>)
    ensures
        v@ == s@,
{
    let n = s.unicode_len();
    let mut v: Vec<char> = Vec::with_capacity(n);
    let mut i: usize = 0;
    while i < n
        invariant
            n == s@.len(),
            i <= n,
            v@ == s@.subrange(0, i as int),
        decreases n - i,
    {
        v.push(s.get_char(i));
        i = i + 1;
        assert(v@ =~= s@.subrange(0, i as int));
    }
    assert(s@.subrange(0, n as int) =~= s@);
    v
}

/// A string made of the characters of `v`.
pub fn chars_to_string(v: &[char]) -> (s: String)
    ensures
        s@ == v@,
{
    let mut s = String::new();
    let mut i: usize = 0;
    while i < v.len()
        invariant
            i <= v@.len(),
            s@ == v@.subrange(0, i as int),
        decreases v@.len() - i,
    {
        string_push(&mut s, v[i]);
        i = i + 1;
        assert(s@ =~= v@.subrange(0, i as int));
    }
    assert(v@.subrange(0, i as int) =~= v@);
    s
}

/// Appends all characters of `tail` to `out`.
pub fn push_all(out: &mut Vec<char>, tail: &[char])
    ensures
        final(out)@ == old(out)@ + tail@,
{
    let mut i: usize = 0;
    while i < tail.len()
        invariant
            i <= tail@.len(),
            out@ == old(out)@ + tail@.subrange(0, i as int),
        decreases tail@.len() - i,
    {
        out.push(tail[i]);
        i = i + 1;
        assert(out@ =~= old(out)@ + tail@.subrange(0, i as int));
    }
    assert(tail@.subrange(0, i as int) =~= tail@);
}

/// Appends all characters of the string slice `tail` to `out`.
pub fn push_str(out: &mut Vec<char>, tail: &str)
    ensures
        final(out)@ == old(out)@ + tail@,
{
    let t = str_chars(tail);
    push_all(out, &t);
}

/// Appends the decimal rendering of `n` to `out`.
pub fn push_dec(out: &mut Vec<char>, n: u64)
    ensures
        final(out)@ == old(out)@ + dec(n as nat),
    decreases n,
{
    if n >= 10 {
        push_dec(out, n / 10);
    }
    let d: u8 = (n % 10) as u8;
    out.push((48u8 + d) as char);
    assert(final(out)@ =~= old(out)@ + dec(n as nat));
}

fn hex_char(d: u8) -> (c: char)
    requires
        d < 16,
    ensures
        c == hex_digit(d as int),
{
    if d < 10 { (48u8 + d) as char } else { (87u8 + d) as char }
}

/// Appends the four-digit lowercase hexadecimal rendering of `x` to `out`.
pub fn push_hex4(out: &mut Vec<char>, x: u16)
    ensures
        final(out)@ == old(out)@ + hex4(x),
{
    out.push(hex_char((x / 0x1000) as u8));
    out.push(hex_char(((x / 0x100) % 0x10) as u8));
    out.push(hex_char(((x / 0x10) % 0x10) as u8));
    out.push(hex_char((x % 0x10) as u8));
    assert(final(out)@ =~= old(out)@ + hex4(x));
}

/// Appends the two-digit lowercase hexadecimal rendering of `x` to `out`.
pub fn push_hex2(out: &mut Vec<char>, x: u8)
    ensures
        final(out)@ == old(out)@ + hex2(x),
{
    out.push(hex_char(x / 0x10));
    out.push(hex_char(x % 0x10));
    assert(final(out)@ =~= old(out)@ + hex2(x));
}

/// Whether two character sequences are equal.
pub fn chars_eq(a: &[char], b: &[char]) -> (r: bool)
    ensures
        r == (a@ == b@),
{
    if a.len() != b.len() {
        return false;
    }
    let mut i: usize = 0;
    while i < a.len()
        invariant
            a@.len() == b@.len(),
            i <= a@.len(),
            forall|j: int| 0 <= j < i ==> a@[j] == b@[j],
        decreases a@.len() - i,
    {
        if a[i] != b[i] {
            return false;
        }
        i = i + 1;
    }
    assert(a@ =~= b@);
    true
}

/// Whether `s` contains `needle` at character index `at`.
pub fn occurs_at_exec(s: &[char], needle: &[char], at: usize) -> (r: bool)
    ensures
        r == occurs_at(s@, needle@, at as int),
{
    if at > s.len() || needle.len() > s.len() - at {
        return false;
    }
    let mut i: usize = 0;
    while i < needle.len()
        invariant
            at + needle@.len() <= s@.len(),
            s@.len() == s.len(),
            i <= needle@.len(),
            forall|j: int| 0 <= j < i ==> s@[at + j] == needle@[j],
        decreases needle@.len() - i,
    {
        if s[at + i] != needle[i] {
            assert(s@.subrange(at as int, at + needle@.len())[i as int] != needle@[i as int]);
            return false;
        }
        i = i + 1;
    }
    assert(s@.subrange(at as int, at + needle@.len()) =~= needle@);
    true
}

/// Whether `s` starts with `prefix`.
pub fn starts_with(s: &[char], prefix: &[char]) -> (r: bool)
    ensures
        r == prefix@.is_prefix_of(s@),
{
    let r = occurs_at_exec(s, prefix, 0);
    assert(r == prefix@.is_prefix_of(s@)) by {
        if prefix@.len() <= s@.len() {
            assert(s@.subrange(0, prefix@.len() as int) =~= s@.take(prefix@.len() as int));
        }
    }
    r
}

/// Whether `s` ends with `suffix`.
pub fn ends_with(s: &[char], suffix: &[char]) -> (r: bool)
    ensures
        r == ends_with_seq(s@, suffix@),
{
    if suffix.len() > s.len() {
        return false;
    }
    occurs_at_exec(s, suffix, s.len() - suffix.len())
}

/// The first index at or after `i` at which `needle` occurs in `s`.
pub open spec fn first_occurrence_from(s: Seq<char>, needle: Seq<char>, i: int) -> Option<int>
    decreases s.len() + 1 - i,
{
    if i < 0 || i > s.len() {
        None
    } else if occurs_at(s, needle, i) {
        Some(i)
    } else {
        first_occurrence_from(s, needle, i + 1)
    }
}

/// The first index at which `needle` occurs in `s`.
pub open spec fn first_occurrence(s: Seq<char>, needle: Seq<char>) -> Option<int> {
    first_occurrence_from(s, needle, 0)
}

proof fn lemma_first_occurrence_none(s: Seq<char>, needle: Seq<char>, i: int)
    requires
        0 <= i <= s.len() + 1,
        first_occurrence_from(s, needle, i) is None,
    ensures
        forall|j: int| i <= j ==> !occurs_at(s, needle, j),
    decreases s.len() + 1 - i,
{
    if i <= s.len() {
        lemma_first_occurrence_none(s, needle, i + 1);
    }
}

/// Whether `needle` occurs in `s` exactly when it has a first occurrence.
pub proof fn lemma_contains_first_occurrence(s: Seq<char>, needle: Seq<char>)
    ensures
        contains_seq(s, needle) <==> first_occurrence(s, needle) is Some,
{
    if first_occurrence(s, needle) is None {
        lemma_first_occurrence_none(s, needle, 0);
        assert forall|j: int| !occurs_at(s, needle, j) by {
            if j < 0 {
            }
        }
    } else {
        lemma_first_occurrence_some(s, needle, 0);
    }
}

/// Where `first_occurrence` finds the needle, the needle occurs.
pub proof fn lemma_first_occurrence_bounds(s: Seq<char>, needle: Seq<char>)
    requires
        first_occurrence(s, needle) is Some,
    ensures
        occurs_at(s, needle, first_occurrence(s, needle).unwrap()),
{
    lemma_first_occurrence_some(s, needle, 0);
}

proof fn lemma_first_occurrence_some(s: Seq<char>, needle: Seq<char>, i: int)
    requires
        first_occurrence_from(s, needle, i) is Some,
    ensures
        occurs_at(s, needle, first_occurrence_from(s, needle, i).unwrap()),
    decreases s.len() + 1 - i,
{
    if i < 0 || i > s.len() {
    } else if occurs_at(s, needle, i) {
    } else {
        lemma_first_occurrence_some(s, needle, i + 1);
    }
}

/// The first character index at which `needle` occurs in `s`, if any.
pub fn find(s: &[char], needle: &[char]) -> (r: Option<usize>)
    ensures
        r matches Some(i) ==> first_occurrence(s@, needle@) == Some(i as int) && occurs_at(
            s@,
            needle@,
            i as int,
        ),
        r is None ==> first_occurrence(s@, needle@) is None,
{
    let mut i: usize = 0;
    while i < s.len()
        invariant
            i <= s@.len(),
            first_occurrence(s@, needle@) == first_occurrence_from(s@, needle@, i as int),
        decreases s@.len() - i,
    {
        if occurs_at_exec(s, needle, i) {
            return Some(i);
        }
        i = i + 1;
    }
    if occurs_at_exec(s, needle, i) {
        return Some(i);
    }
    assert(first_occurrence_from(s@, needle@, i + 1) is None);
    None
}

/// The pieces of `s` between occurrences of the non-empty separator `sep`
/// (as `str::split` with a string pattern).
pub open spec fn split_str(s: Seq<char>, sep: Seq<char>) -> Seq<Seq<char>>
    decreases s.len(),
{
    match first_occurrence(s, sep) {
        Some(k) => if 0 <= k && 0 < sep.len() && k + sep.len() <= s.len() {
            seq![s.take(k)] + split_str(s.skip(k + sep.len()), sep)
        } else {
            seq![s]
        },
        None => seq![s],
    }
}

/// The values of a list of character vectors.
pub open spec fn pieces_view(v: Seq<Vec<char>>) -> Seq<Seq<char>> {
    v.map_values(|x: Vec<char>| x@)
}

/// Splits `s` at each occurrence of the non-empty separator `sep`.
pub fn split_by(s: &[char], sep: &[char]) -> (r: Vec<Vec<char>>)
    requires
        sep@.len() > 0,
    ensures
        pieces_view(r@) == split_str(s@, sep@),
{
    let mut r: Vec<Vec<char>> = Vec::new();
    let mut start: usize = 0;
    let n = s.len();
    assert(s@.skip(0) =~= s@);
    loop
        invariant
            start <= n,
            n == s@.len(),
            sep@.len() > 0,
            pieces_view(r@) + split_str(s@.skip(start as int), sep@) == split_str(s@, sep@),
        decreases n - start,
    {
        let rest = &s[start..n];
        assert(rest@ =~= s@.skip(start as int));
        match find(rest, sep) {
            None => {
                let mut piece: Vec<char> = Vec::new();
                push_all(&mut piece, rest);
                let ghost before = pieces_view(r@);
                r.push(piece);
                assert(pieces_view(r@) =~= before + seq![rest@]);
                return r;
            },
            Some(k) => {
                let mut piece: Vec<char> = Vec::new();
                push_all(&mut piece, &rest[0..k]);
                assert(piece@ =~= rest@.take(k as int));
                let ghost before = pieces_view(r@);
                r.push(piece);
                assert(pieces_view(r@) =~= before + seq![rest@.take(k as int)]);
                assert(rest@.skip(k + sep@.len()) =~= s@.skip(start + k + sep@.len()));
                start = start + k + sep.len();
            },
        }
    }
}

/// The pieces joined together.
pub open spec fn concat(parts: Seq<Seq<char>>) -> Seq<char>
    decreases parts.len(),
{
    if parts.len() == 0 {
        seq![]
    } else {
        concat(parts.drop_last()) + parts.last()
    }
}

/// `s` with every occurrence of the non-empty pattern `pat` removed (as
/// `str::replace` with an empty replacement).
pub open spec fn remove_all(s: Seq<char>, pat: Seq<char>) -> Seq<char> {
    concat(split_str(s, pat))
}

/// `s` with every occurrence of the non-empty pattern `pat` removed.
pub fn remove_all_of(s: &str, pat: &str) -> (r: String)
    requires
        pat@.len() > 0,
    ensures
        r@ == remove_all(s@, pat@),
{
    let v = str_chars(s);
    let p = str_chars(pat);
    let parts = split_by(&v, &p);
    let ghost ps = pieces_view(parts@);
    let mut out: Vec<char> = Vec::new();
    let mut i: usize = 0;
    while i < parts.len()
        invariant
            i <= parts@.len(),
            ps == pieces_view(parts@),
            out@ == concat(ps.take(i as int)),
        decreases parts@.len() - i,
    {
        push_all(&mut out, parts[i].as_slice());
        assert(ps.take(i + 1).drop_last() =~= ps.take(i as int));
        i = i + 1;
    }
    assert(ps.take(i as int) =~= ps);
    chars_to_string(&out)
}

/// Whether `needle` occurs in `s`.
pub fn contains(s: &[char], needle: &[char]) -> (r: bool)
    ensures
        r == contains_seq(s@, needle@),
{
    proof { lemma_contains_first_occurrence(s@, needle@); }
    match find(s, needle) {
        Some(_) => true,
        None => false,
    }
}

/// Whether `c` has the Unicode White_Space property (as `char::is_whitespace`).
pub open spec fn is_ws(c: char) -> bool {
    let v = c as u32;
    (9 <= v <= 13) || v == 32 || v == 0x85 || v == 0xA0 || v == 0x1680 || (0x2000 <= v <= 0x200A)
        || v == 0x2028 || v == 0x2029 || v == 0x202F || v == 0x205F || v == 0x3000
}

/// Whether `c` is whitespace.
pub fn is_whitespace(c: char) -> (r: bool)
    ensures
        r == is_ws(c),
{
    let v = c as u32;
    (9 <= v && v <= 13) || v == 32 || v == 0x85 || v == 0xA0 || v == 0x1680 || (0x2000 <= v && v
        <= 0x200A) || v == 0x2028 || v == 0x2029 || v == 0x202F || v == 0x205F || v == 0x3000
}

/// `s` without leading whitespace.
pub open spec fn trim_start_spec(s: Seq<char>) -> Seq<char>
    decreases s.len(),
{
    if s.len() > 0 && is_ws(s[0]) {
        trim_start_spec(s.drop_first())
    } else {
        s
    }
}

/// `s` without trailing whitespace.
pub open spec fn trim_end_spec(s: Seq<char>) -> Seq<char>
    decreases s.len(),
{
    if s.len() > 0 && is_ws(s.last()) {
        trim_end_spec(s.drop_last())
    } else {
        s
    }
}

/// `s` without leading and trailing whitespace (as `str::trim`).
pub open spec fn trim_spec(s: Seq<char>) -> Seq<char> {
    trim_end_spec(trim_start_spec(s))
}

/// The characters of `s` without leading and trailing whitespace.
pub fn trim_chars(s: &[char]) -> (r: Vec<char>)
    ensures
        r@ == trim_spec(s@),
{
    let mut i: usize = 0;
    assert(s@.skip(0) =~= s@);
    while i < s.len() && is_whitespace(s[i])
        invariant
            i <= s@.len(),
            trim_start_spec(s@) == trim_start_spec(s@.skip(i as int)),
        decreases s@.len() - i,
    {
        assert(s@.skip(i as int).drop_first() =~= s@.skip(i + 1));
        i = i + 1;
    }
    let mut j: usize = s.len();
    assert(s@.skip(i as int).subrange(0, (j - i) as int) =~= s@.skip(i as int));
    while j > i && is_whitespace(s[j - 1])
        invariant
            i <= j <= s@.len(),
            trim_start_spec(s@) == s@.skip(i as int),
            trim_spec(s@) == trim_end_spec(s@.subrange(i as int, j as int)),
        decreases j - i,
    {
        assert(s@.subrange(i as int, j as int).drop_last() =~= s@.subrange(i as int, j - 1));
        j = j - 1;
    }
    assert(trim_start_spec(s@) =~= s@.skip(i as int));
    let mut r: Vec<char> = Vec::new();
    push_all(&mut r, &s[i..j]);
    r
}

/// Trims a string slice, returning the result as a `String`.
pub fn trim_str(s: &str) -> (r: String)
    ensures
        r@ == trim_spec(s@),
{
    let v = str_chars(s);
    let t = trim_chars(&v);
    chars_to_string(&t)
}

/// Index of the first occurrence of `c` in `s` at or after `i`.
pub open spec fn index_of_char_from(s: Seq<char>, c: char, i: int) -> Option<int>
    decreases s.len() - i,
{
    if i < 0 || i >= s.len() {
        None
    } else if s[i] == c {
        Some(i)
    } else {
        index_of_char_from(s, c, i + 1)
    }
}

/// A line without its `\r` terminator, if it has one.
pub open spec fn strip_cr(line: Seq<char>) -> Seq<char> {
    if line.len() > 0 && line.last() == '\r' {
        line.drop_last()
    } else {
        line
    }
}

/// The lines of `s` (as `str::lines`): split at `\n`, dropping a `\r`
/// before each `\n`; a final line ending is optional.
pub open spec fn lines_spec(s: Seq<char>) -> Seq<Seq<char>>
    decreases s.len(),
{
    if s.len() == 0 {
        seq![]
    } else {
        match index_of_char_from(s, '\n', 0) {
            None => seq![s],
            Some(k) => if 0 <= k < s.len() {
                seq![strip_cr(s.take(k))] + lines_spec(s.skip(k + 1))
            } else {
                seq![]
            },
        }
    }
}

proof fn lemma_index_of_char_bounds(s: Seq<char>, c: char, i: int)
    requires
        index_of_char_from(s, c, i) is Some,
    ensures
        i <= index_of_char_from(s, c, i).unwrap() < s.len(),
        0 <= index_of_char_from(s, c, i).unwrap(),
        s[index_of_char_from(s, c, i).unwrap()] == c,
    decreases s.len() - i,
{
    if i < 0 || i >= s.len() {
    } else if s[i] == c {
    } else {
        lemma_index_of_char_bounds(s, c, i + 1);
    }
}

/// The lines of a text, as character vectors.
pub fn lines_of(s: &[char]) -> (r: Vec<Vec<char>>)
    ensures
        r@.len() == lines_spec(s@).len(),
        forall|k: int| 0 <= k < r@.len() ==> (#[trigger] r@[k])@ == lines_spec(s@)[k],
{
    let mut r: Vec<Vec<char>> = Vec::new();
    let mut start: usize = 0;
    assert(s@.skip(0) =~= s@);
    while start < s.len()
        invariant
            start <= s@.len(),
            r@.len() + lines_spec(s@.skip(start as int)).len() == lines_spec(s@).len(),
            forall|k: int| 0 <= k < r@.len() ==> (#[trigger] r@[k])@ == lines_spec(s@)[k],
            forall|k: int|
                0 <= k < lines_spec(s@.skip(start as int)).len() ==> lines_spec(s@)[r@.len() + k]
                    == #[trigger] lines_spec(s@.skip(start as int))[k],
        decreases s@.len() - start,
    {
        let ghost rest = s@.skip(start as int);
        let mut j: usize = start;
        while j < s.len() && s[j] != '\n'
            invariant
                start <= j <= s@.len(),
                rest == s@.skip(start as int),
                index_of_char_from(rest, '\n', 0) == index_of_char_from(rest, '\n', (j - start) as int),
            decreases s@.len() - j,
        {
            j = j + 1;
        }
        let mut line: Vec<char> = Vec::new();
        push_all(&mut line, &s[start..j]);
        let ghost k = (j - start) as int;
        let ghost before = r@;
        if j < s.len() {
            if line.len() > 0 && line[line.len() - 1] == '\r' {
                line.pop();
            }
            assert(index_of_char_from(rest, '\n', 0) == Some(k));
            assert(rest.take(k) =~= s@.subrange(start as int, j as int));
            assert(rest.skip(k + 1) =~= s@.skip(j + 1));
            assert(line@ =~= strip_cr(rest.take(k)));
            assert(lines_spec(rest) == seq![line@] + lines_spec(s@.skip(j + 1)));
            r.push(line);
            assert forall|q: int| 0 <= q < r@.len() implies (#[trigger] r@[q])@ == lines_spec(s@)[q] by {
                if q == before.len() {
                    assert(lines_spec(s@)[before.len() as int] == lines_spec(rest)[0]);
                }
            }
            assert forall|q: int| 0 <= q < lines_spec(s@.skip(j + 1)).len() implies lines_spec(s@)[r@.len() + q]
                == #[trigger] lines_spec(s@.skip(j + 1))[q] by {
                assert(lines_spec(rest)[q + 1] == lines_spec(s@.skip(j + 1))[q]);
            }
            start = j + 1;
        } else {
            assert(index_of_char_from(rest, '\n', 0) is None);
            assert(rest =~= s@.subrange(start as int, j as int));
            assert(lines_spec(rest) == seq![rest]);
            assert(s@.skip(j as int) =~= Seq::<char>::empty());
            r.push(line);
            assert forall|q: int| 0 <= q < r@.len() implies (#[trigger] r@[q])@ == lines_spec(s@)[q] by {
                if q == before.len() {
                    assert(lines_spec(s@)[before.len() as int] == lines_spec(rest)[0]);
                }
            }
            start = j;
        }
    }
    assert(s@.skip(start as int) =~= Seq::<char>::empty());
    r
}

/// The words of `s[i..]` (maximal runs of non-whitespace characters, as
/// `str::split_whitespace`), given that `cur` is the unfinished word before `i`.
pub open spec fn words_acc(s: Seq<char>, i: int, cur: Seq<char>) -> Seq<Seq<char>>
    decreases s.len() - i,
{
    if i < 0 || i >= s.len() {
        if cur.len() > 0 { seq![cur] } else { seq![] }
    } else if is_ws(s[i]) {
        (if cur.len() > 0 { seq![cur] } else { seq![] }) + words_acc(s, i + 1, seq![])
    } else {
        words_acc(s, i + 1, cur.push(s[i]))
    }
}

/// The whitespace-separated words of `s`.
pub open spec fn words_spec(s: Seq<char>) -> Seq<Seq<char>> {
    words_acc(s, 0, seq![])
}

/// The whitespace-separated words of a text, as character vectors.
pub fn words_of(s: &[char]) -> (r: Vec<Vec<char>>)
    ensures
        r@.len() == words_spec(s@).len(),
        forall|k: int| 0 <= k < r@.len() ==> (#[trigger] r@[k])@ == words_spec(s@)[k],
{
    let mut r: Vec<Vec<char>> = Vec::new();
    let mut cur: Vec<char> = Vec::new();
    let mut i: usize = 0;
    let ghost done: Seq<Seq<char>> = seq![];
    while i < s.len()
        invariant
            i <= s@.len(),
            r@.len() == done.len(),
            forall|k: int| 0 <= k < r@.len() ==> (#[trigger] r@[k])@ == done[k],
            words_spec(s@) == done + words_acc(s@, i as int, cur@),
        decreases s@.len() - i,
    {
        if is_whitespace(s[i]) {
            let ghost rest = words_acc(s@, i + 1, seq![]);
            if cur.len() > 0 {
                assert(words_acc(s@, i as int, cur@) == seq![cur@] + rest);
                assert(done + (seq![cur@] + rest) =~= done.push(cur@) + rest);
                proof {
                    done = done.push(cur@);
                }
                r.push(cur);
                cur = Vec::new();
            } else {
                assert(words_acc(s@, i as int, cur@) == Seq::<Seq<char>>::empty() + rest);
                assert(Seq::<Seq<char>>::empty() + rest =~= rest);
            }
            assert(cur@ =~= Seq::<char>::empty());
            assert(words_spec(s@) =~= done + words_acc(s@, i + 1, cur@));
        } else {
            cur.push(s[i]);
        }
        i = i + 1;
    }
    if cur.len() > 0 {
        proof {
            done = done.push(cur@);
        }
        r.push(cur);
    }
    assert(words_spec(s@) =~= done);
    r
}

/// The value of digit character `c` in base `radix` (2..=16), if it is one
/// (letters in either case).
pub open spec fn digit_value(c: char, radix: u32) -> Option<u32> {
    let v = c as u32;
    let d: int = if 48 <= v <= 57 {
        v - 48
    } else if 97 <= v <= 122 {
        v - 87
    } else if 65 <= v <= 90 {
        v - 55
    } else {
        99
    };
    if d < radix { Some(d as u32) } else { None }
}

/// Whether every character of `s` is a digit in base `radix`.
pub open spec fn all_digits(s: Seq<char>, radix: u32) -> bool {
    forall|i: int| 0 <= i < s.len() ==> (#[trigger] digit_value(s[i], radix)) is Some
}

/// The number written by the digits `s` in base `radix`.
pub open spec fn digits_number(s: Seq<char>, radix: u32) -> nat
    decreases s.len(),
{
    if s.len() == 0 {
        0
    } else {
        (digits_number(s.drop_last(), radix) * radix + digit_value(s.last(), radix).unwrap()) as nat
    }
}

/// The digits of a number text: without its optional leading `+`.
pub open spec fn unsigned_digits(s: Seq<char>) -> Seq<char> {
    if s.len() > 0 && s[0] == '+' { s.drop_first() } else { s }
}

/// The value of an unsigned number text as `from_str_radix` reads it: an
/// optional `+` then at least one digit, with a value of at most `max`.
pub open spec fn parse_unsigned_spec(s: Seq<char>, radix: u32, max: nat) -> Option<nat> {
    let d = unsigned_digits(s);
    if d.len() > 0 && all_digits(d, radix) && digits_number(d, radix) <= max {
        Some(digits_number(d, radix))
    } else {
        None
    }
}

fn digit_of(c: char, radix: u32) -> (r: Option<u32>)
    requires
        2 <= radix <= 16,
    ensures
        r == digit_value(c, radix),
{
    let v = c as u32;
    let d: u32 = if 48 <= v && v <= 57 {
        v - 48
    } else if 97 <= v && v <= 122 {
        v - 87
    } else if 65 <= v && v <= 90 {
        v - 55
    } else {
        99
    };
    if d < radix { Some(d) } else { None }
}

proof fn lemma_digits_number_grows(s: Seq<char>, radix: u32, k: int)
    requires
        2 <= radix <= 16,
        0 <= k <= s.len(),
        all_digits(s, radix),
    ensures
        digits_number(s.take(k), radix) <= digits_number(s, radix),
    decreases s.len() - k,
{
    if k < s.len() {
        lemma_digits_number_grows(s, radix, k + 1);
        assert(s.take(k + 1).drop_last() =~= s.take(k));
        assert(digit_value(s[k], radix) is Some);
        assert(s.take(k + 1).last() == s[k]);
        assert(digits_number(s.take(k), radix) <= digits_number(s.take(k), radix) * radix)
            by (nonlinear_arith)
            requires radix >= 2;
    } else {
        assert(s.take(k) =~= s);
    }
}

/// Parses an unsigned number in base `radix` (std `from_str_radix` for an
/// unsigned type whose maximum is `max`).
pub fn parse_unsigned(s: &[char], radix: u32, max: u64) -> (r: Option<u64>)
    requires
        2 <= radix <= 16,
    ensures
        match r {
            Some(v) => parse_unsigned_spec(s@, radix, max as nat) == Some(v as nat),
            None => parse_unsigned_spec(s@, radix, max as nat) is None,
        },
{
    let start: usize = if s.len() > 0 && s[0] == '+' { 1 } else { 0 };
    let ghost d = unsigned_digits(s@);
    assert(d =~= s@.skip(start as int));
    if start >= s.len() {
        return None;
    }
    let mut value: u64 = 0;
    let mut i: usize = start;
    while i < s.len()
        invariant
            start <= i <= s@.len(),
            d == s@.skip(start as int),
            d == unsigned_digits(s@),
            2 <= radix <= 16,
            forall|j: int| 0 <= j < i - start ==> (#[trigger] digit_value(d[j], radix)) is Some,
            value as nat == digits_number(d.take(i - start), radix),
            value <= max,
        decreases s@.len() - i,
    {
        let dv = digit_of(s[i], radix);
        match dv {
            None => {
                assert(d[i - start] == s@[i as int]);
                assert(!all_digits(d, radix)) by {
                    assert(digit_value(d[i - start], radix) is None);
                }
                return None;
            },
            Some(x) => {
                assert(d.take(i - start + 1).drop_last() =~= d.take(i - start));
                assert(d.take(i - start + 1).last() == s@[i as int]);
                assert((value as u128) * (radix as u128) <= 0xFFFF_FFFF_FFFF_FFFFu128 * 16)
                    by (nonlinear_arith)
                    requires
                        value <= 0xFFFF_FFFF_FFFF_FFFFu64,
                        radix <= 16,
                ;
                let big: u128 = value as u128 * radix as u128 + x as u128;
                if big > max as u128 {
                    proof {
                        assert forall|j: int| 0 <= j < i - start + 1 implies (#[trigger] digit_value(d.take(i - start + 1)[j], radix)) is Some by {
                            assert(d.take(i - start + 1)[j] == d[j]);
                        }
                        if all_digits(d, radix) {
                            lemma_digits_number_grows(d, radix, i - start + 1);
                        }
                    }
                    return None;
                }
                value = big as u64;
            },
        }
        i = i + 1;
    }
    assert(d.take(i - start) =~= d);
    Some(value)
}

/// Whether `a` comes strictly before `b` in lexicographic order of
/// character codes (the order of `str`).
pub open spec fn text_lt(a: Seq<char>, b: Seq<char>) -> bool
    decreases a.len(),
{
    if a.len() == 0 {
        b.len() > 0
    } else if b.len() == 0 {
        false
    } else if a[0] != b[0] {
        (a[0] as u32) < (b[0] as u32)
    } else {
        text_lt(a.drop_first(), b.drop_first())
    }
}

/// Whether `a` comes strictly before `b`.
pub fn chars_lt(a: &[char], b: &[char]) -> (r: bool)
    ensures
        r == text_lt(a@, b@),
{
    let mut i: usize = 0;
    assert(a@.skip(0) =~= a@ && b@.skip(0) =~= b@);
    while i < a.len() && i < b.len() && a[i] == b[i]
        invariant
            i <= a@.len(),
            i <= b@.len(),
            text_lt(a@, b@) == text_lt(a@.skip(i as int), b@.skip(i as int)),
        decreases a@.len() - i,
    {
        assert(a@.skip(i as int).drop_first() =~= a@.skip(i + 1));
        assert(b@.skip(i as int).drop_first() =~= b@.skip(i + 1));
        i = i + 1;
    }
    if i == a.len() {
        i < b.len()
    } else if i == b.len() {
        false
    } else {
        (a[i] as u32) < (b[i] as u32)
    }
}

/// The character sequences of a list of strings.
pub open spec fn texts_view(v: Seq<String>) -> Seq<Seq<char>> {
    v.map_values(|s: String| s@)
}

/// Position at which `x` is inserted into `s`: the first index at or after
/// `j` whose text comes after `x`.
pub open spec fn text_insertion_point_from(s: Seq<Seq<char>>, x: Seq<char>, j: int) -> int
    decreases s.len() - j,
{
    if j < 0 || j >= s.len() {
        s.len() as int
    } else if text_lt(x, s[j]) {
        j
    } else {
        text_insertion_point_from(s, x, j + 1)
    }
}

/// Sorting texts by inserting each one after every earlier text that is
/// not greater than it.
pub open spec fn sort_texts(s: Seq<Seq<char>>) -> Seq<Seq<char>>
    decreases s.len(),
{
    if s.len() == 0 {
        seq![]
    } else {
        let sorted = sort_texts(s.drop_last());
        sorted.insert(text_insertion_point_from(sorted, s.last(), 0), s.last())
    }
}

/// `text_lt` is asymmetric.
pub proof fn lemma_text_lt_asym(a: Seq<char>, b: Seq<char>)
    ensures
        text_lt(a, b) ==> !text_lt(b, a),
    decreases a.len(),
{
    if a.len() > 0 && b.len() > 0 && a[0] == b[0] {
        lemma_text_lt_asym(a.drop_first(), b.drop_first());
    }
}

/// `text_lt` is transitive.
pub proof fn lemma_text_lt_trans(a: Seq<char>, b: Seq<char>, c: Seq<char>)
    ensures
        text_lt(a, b) && text_lt(b, c) ==> text_lt(a, c),
    decreases a.len(),
{
    if a.len() > 0 && b.len() > 0 && c.len() > 0 && a[0] == b[0] && b[0] == c[0] {
        lemma_text_lt_trans(a.drop_first(), b.drop_first(), c.drop_first());
    }
}

/// Of two different texts, one comes before the other.
pub proof fn lemma_text_lt_total(a: Seq<char>, b: Seq<char>)
    ensures
        a != b ==> text_lt(a, b) || text_lt(b, a),
    decreases a.len(),
{
    if a.len() == 0 && b.len() == 0 {
        assert(a =~= b);
    } else if a.len() > 0 && b.len() > 0 && a[0] == b[0] {
        lemma_text_lt_total(a.drop_first(), b.drop_first());
        if a.drop_first() == b.drop_first() {
            assert(a =~= seq![a[0]] + a.drop_first());
            assert(b =~= seq![b[0]] + b.drop_first());
        }
    } else if a.len() > 0 && b.len() > 0 {
        vstd::utf8::char_u32_cast(a[0], a[0] as u32);
        vstd::utf8::char_u32_cast(b[0], b[0] as u32);
    }
}

/// Whether the texts are in ascending order.
pub open spec fn texts_sorted(s: Seq<Seq<char>>) -> bool {
    forall|i: int, j: int| 0 <= i < j < s.len() ==> !text_lt(#[trigger] s[j], #[trigger] s[i])
}

proof fn lemma_text_insertion_point(s: Seq<Seq<char>>, x: Seq<char>, j: int)
    requires
        0 <= j <= s.len(),
        texts_sorted(s),
        forall|i: int| 0 <= i < j ==> !text_lt(x, #[trigger] s[i]),
    ensures
        j <= text_insertion_point_from(s, x, j) <= s.len(),
        forall|i: int| 0 <= i < text_insertion_point_from(s, x, j) ==> !text_lt(x, #[trigger] s[i]),
        forall|i: int| text_insertion_point_from(s, x, j) <= i < s.len() ==> text_lt(x, #[trigger] s[i]),
    decreases s.len() - j,
{
    if j < s.len() {
        if text_lt(x, s[j]) {
            assert forall|i: int| j <= i < s.len() implies text_lt(x, #[trigger] s[i]) by {
                if i > j {
                    assert(!text_lt(s[i], s[j]));
                    lemma_text_lt_total(s[i], s[j]);
                    lemma_text_lt_trans(x, s[j], s[i]);
                }
            }
        } else {
            lemma_text_insertion_point(s, x, j + 1);
        }
    }
}

/// Sorting texts gives them in ascending order, none lost or repeated.
pub proof fn law_sort_texts(s: Seq<Seq<char>>)
    ensures
        texts_sorted(sort_texts(s)),
        sort_texts(s).to_multiset() =~= s.to_multiset(),
    decreases s.len(),
{
    if s.len() > 0 {
        let t = sort_texts(s.drop_last());
        law_sort_texts(s.drop_last());
        let x = s.last();
        lemma_text_insertion_point(t, x, 0);
        let p = text_insertion_point_from(t, x, 0);
        let u = t.insert(p, x);
        assert forall|i: int, j: int| 0 <= i < j < u.len() implies !text_lt(#[trigger] u[j], #[trigger] u[i]) by {
            if j < p {
                assert(!text_lt(t[j], t[i]));
            } else if j == p {
                assert(!text_lt(x, t[i]));
            } else if i < p {
                assert(!text_lt(t[j - 1], t[i]));
            } else if i == p {
                assert(text_lt(x, t[j - 1]));
                lemma_text_lt_asym(x, t[j - 1]);
            } else {
                assert(!text_lt(t[j - 1], t[i - 1]));
            }
        }
        crate::seq_facts::lemma_insert_to_multiset(t, p, x);
        crate::seq_facts::lemma_push_to_multiset(s.drop_last(), x);
        assert(s.drop_last().push(x) =~= s);
    } else {
        assert(sort_texts(s) =~= s);
    }
}

fn string_lt(a: &String, b: &String) -> (r: bool)
    ensures
        r == text_lt(a@, b@),
{
    let av = str_chars(a.as_str());
    let bv = str_chars(b.as_str());
    chars_lt(&av, &bv)
}

/// Sorts strings in ascending order.
pub fn sort_strings(v: Vec<String>) -> (r: Vec<String>)
    ensures
        texts_view(r@) == sort_texts(texts_view(v@)),
{
    let ghost orig = v@;
    let mut v = v;
    let mut out: Vec<String> = Vec::new();
    let n = v.len();
    let mut i: usize = 0;
    assert(texts_view(orig.take(0)) =~= Seq::<Seq<char>>::empty());
    assert(texts_view(out@) =~= Seq::<Seq<char>>::empty());
    while i < n
        invariant
            n == orig.len(),
            i <= n,
            v@ == orig.skip(i as int),
            texts_view(out@) == sort_texts(texts_view(orig.take(i as int))),
        decreases n - i,
    {
        let x = v.remove(0);
        assert(x == orig[i as int]);
        assert(v@ =~= orig.skip(i + 1));
        assert(texts_view(orig.take(i + 1)).drop_last() =~= texts_view(orig.take(i as int)));
        assert(texts_view(orig.take(i + 1)).last() == x@);
        let mut j: usize = 0;
        while j < out.len() && !string_lt(&x, &out[j])
            invariant
                j <= out@.len(),
                text_insertion_point_from(texts_view(out@), x@, 0) == text_insertion_point_from(
                    texts_view(out@),
                    x@,
                    j as int,
                ),
            decreases out@.len() - j,
        {
            j = j + 1;
        }
        let ghost before = out@;
        out.insert(j, x);
        assert(texts_view(out@) =~= texts_view(before).insert(j as int, x@));
        i = i + 1;
    }
    assert(orig.take(n as int) =~= orig);
    out
}

/// Whether string slice `s` equals string slice `lit`.
pub fn str_is(s: &str, lit: &str) -> (r: bool)
    ensures
        r == (s@ == lit@),
{
    let a = str_chars(s);
    let b = str_chars(lit);
    chars_eq(&a, &b)
}

/// Whether string slice `s` contains `lit`.
pub fn str_contains(s: &str, lit: &str) -> (r: bool)
    ensures
        r == contains_seq(s@, lit@),
{
    let a = str_chars(s);
    let b = str_chars(lit);
    contains(&a, &b)
}

/// Whether string slice `s` starts with `lit`.
pub fn str_starts_with(s: &str, lit: &str) -> (r: bool)
    ensures
        r == lit@.is_prefix_of(s@),
{
    let a = str_chars(s);
    let b = str_chars(lit);
    starts_with(&a, &b)
}

/// Whether string slice `s` ends with `lit`.
pub fn str_ends_with(s: &str, lit: &str) -> (r: bool)
    ensures
        r == ends_with_seq(s@, lit@),
{
    let a = str_chars(s);
    let b = str_chars(lit);
    ends_with(&a, &b)
}

/// Copies a string (std `String::clone`).
pub fn copy_string(s: &String) -> (r: String)
    ensures
        r@ == s@,
{
    s.clone()
}

/// The full lowercase mapping of `s` defined by Unicode, as std computes it.
pub uninterp spec fn lowercase(s: Seq<char>) -> Seq<char>;

/// Calls std's `str::to_lowercase`. Claimed: the result's characters are
/// `lowercase` of the input's characters, a name for the Unicode mapping;
/// nothing is said about what the mapping does to any character.
#[verifier::external_body]
pub(crate) fn to_lowercase(s: &str) -> (r: String)
    ensures
        r@ == lowercase(s@),
{
    s.to_lowercase()
}

/// The decimal text of `n` is a non-empty run of ASCII digits that reads
/// back as `n`.
pub proof fn lemma_dec_reads_back(n: nat)
    ensures
        dec(n).len() > 0,
        forall|i: int| 0 <= i < dec(n).len() ==> 48 <= (#[trigger] dec(n)[i]) as u32 <= 57,
        all_digits(dec(n), 10),
        digits_number(dec(n), 10) == n,
    decreases n,
{
    let c = dec_digit((n % 10) as int);
    assert(c as u32 == 48 + n % 10);
    assert(digit_value(c, 10) == Some((n % 10) as u32));
    assert(dec(n).last() == c);
    if n < 10 {
        assert(dec(n).drop_last() =~= Seq::<char>::empty());
        assert(digits_number(dec(n).drop_last(), 10) == 0);
    } else {
        lemma_dec_reads_back(n / 10);
        let d = dec(n / 10);
        assert(dec(n) == d.push(c));
        assert(dec(n).drop_last() =~= d);
        assert(n == (n / 10) * 10 + n % 10) by (nonlinear_arith);
        assert forall|i: int| 0 <= i < dec(n).len() implies (#[trigger] digit_value(dec(n)[i], 10)) is Some by {
            if i < d.len() {
                assert(dec(n)[i] == d[i]);
                assert(digit_value(d[i], 10) is Some);
            }
        }
    }
}

/// Splitting at `sep` a text that starts with a piece free of the
/// separator's first character, then the separator, gives that piece first.
pub proof fn lemma_split_first_piece(a: Seq<char>, sep: Seq<char>, rest: Seq<char>)
    requires
        sep.len() > 0,
        forall|k: int| 0 <= k < a.len() ==> (#[trigger] a[k]) != sep[0],
    ensures
        split_str(a + sep + rest, sep) == seq![a] + split_str(rest, sep),
{
    let s = a + sep + rest;
    lemma_first_piece_occurrence(a, sep, rest, 0);
    assert(s.take(a.len() as int) =~= a);
    assert(s.skip((a.len() + sep.len()) as int) =~= rest);
}

proof fn lemma_first_piece_occurrence(a: Seq<char>, sep: Seq<char>, rest: Seq<char>, i: int)
    requires
        sep.len() > 0,
        0 <= i <= a.len(),
        forall|k: int| 0 <= k < a.len() ==> (#[trigger] a[k]) != sep[0],
    ensures
        first_occurrence_from(a + sep + rest, sep, i) == Some(a.len() as int),
    decreases a.len() - i,
{
    let s = a + sep + rest;
    if i < a.len() {
        assert(s.subrange(i, i + sep.len())[0] == a[i]);
        assert(!occurs_at(s, sep, i));
        lemma_first_piece_occurrence(a, sep, rest, i + 1);
    } else {
        assert(s.subrange(i, i + sep.len()) =~= sep);
    }
}

/// Splitting always gives at least one piece.
pub proof fn lemma_split_nonempty(s: Seq<char>, sep: Seq<char>)
    ensures
        split_str(s, sep).len() >= 1,
{
}

/// A text that starts and ends with a non-whitespace character is its own
/// trimmed form.
pub proof fn lemma_trim_unchanged(s: Seq<char>)
    requires
        s.len() > 0,
        !is_ws(s[0]),
        !is_ws(s.last()),
    ensures
        trim_spec(s) == s,
{
}

} // verus!
