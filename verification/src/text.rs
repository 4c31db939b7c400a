//! Byte-string helpers that the parsers are built from. Source text is UTF-8; every
//! helper works on its bytes, and every delimiter it looks for is ASCII.
use vstd::prelude::*;
use vstd::string::StringSliceAdditionalSpecFns;
use vstd::utf8::*;

verus! {

broadcast use vstd::seq_lib::group_seq_properties;

/// `p` occurs in `s` at index `i`.
pub open spec fn matches_at(s: Seq<u8>, p: Seq<u8>, i: int) -> bool {
    0 <= i && i + p.len() <= s.len() && s.subrange(i, i + p.len()) == p
}

/// `s` begins with `p`.
pub open spec fn starts_with(s: Seq<u8>, p: Seq<u8>) -> bool {
    matches_at(s, p, 0)
}

/// `s` ends with `p`.
pub open spec fn ends_with(s: Seq<u8>, p: Seq<u8>) -> bool {
    matches_at(s, p, s.len() - p.len())
}

/// `s` without the prefix `p`, when it has that prefix.
pub open spec fn spec_strip_prefix(s: Seq<u8>, p: Seq<u8>) -> Option<Seq<u8>> {
    if starts_with(s, p) {
        Some(s.subrange(p.len() as int, s.len() as int))
    } else {
        None
    }
}

/// `s` without the suffix `p`, when it has that suffix.
pub open spec fn spec_strip_suffix(s: Seq<u8>, p: Seq<u8>) -> Option<Seq<u8>> {
    if ends_with(s, p) {
        Some(s.subrange(0, s.len() - p.len()))
    } else {
        None
    }
}

/// The first index at or after `i` where `p` occurs in `s`.
pub open spec fn spec_find_from(s: Seq<u8>, p: Seq<u8>, i: int) -> Option<int>
    decreases s.len() + 1 - i,
{
    if i < 0 || i + p.len() > s.len() {
        None
    } else if matches_at(s, p, i) {
        Some(i)
    } else {
        spec_find_from(s, p, i + 1)
    }
}

/// The first index where `p` occurs in `s`.
pub open spec fn spec_find(s: Seq<u8>, p: Seq<u8>) -> Option<int> {
    spec_find_from(s, p, 0)
}

/// The parts of `s` before and after the first occurrence of `p`.
pub open spec fn spec_split_once(s: Seq<u8>, p: Seq<u8>) -> Option<(Seq<u8>, Seq<u8>)> {
    match spec_find(s, p) {
        Some(i) => Some((s.subrange(0, i), s.subrange(i + p.len(), s.len() as int))),
        None => None,
    }
}

/// The first index at or after `i` that holds `a` or `b`.
pub open spec fn spec_find_either_from(s: Seq<u8>, a: u8, b: u8, i: int) -> Option<int>
    decreases s.len() - i,
{
    if i < 0 || i >= s.len() {
        None
    } else if s[i] == a || s[i] == b {
        Some(i)
    } else {
        spec_find_either_from(s, a, b, i + 1)
    }
}

/// Byte-wise equality of two slices.
pub fn bytes_eq(a: &[u8], b: &[u8]) -> (r: bool)
    ensures
        r == (a@ == b@),
{
    if a.len() != b.len() {
        return false;
    }
    let mut i: usize = 0;
    while i < a.len()
        invariant
            i <= a.len(),
            a.len() == b.len(),
            forall|j: int| 0 <= j < i ==> a@[j] == b@[j],
        decreases a.len() - i,
    {
        if a[i] != b[i] {
            return false;
        }
        i += 1;
    }
    assert(a@ =~= b@);
    true
}

/// Whether `p` occurs in `s` at index `i`.
pub fn matches_at_exec(s: &[u8], p: &[u8], i: usize) -> (r: bool)
    ensures
        r == matches_at(s@, p@, i as int),
{
    if i > s.len() || p.len() > s.len() - i {
        return false;
    }
    let mut j: usize = 0;
    while j < p.len()
        invariant
            j <= p.len(),
            i + p.len() <= s.len(),
            forall|k: int| 0 <= k < j ==> s@[i + k] == p@[k],
        decreases p.len() - j,
    {
        if s[i + j] != p[j] {
            assert(s@.subrange(i as int, i + p.len())[j as int] != p@[j as int]);
            return false;
        }
        j += 1;
    }
    assert(s@.subrange(i as int, i + p.len()) =~= p@);
    true
}

/// `s` without the prefix `p`, when it has that prefix.
pub fn strip_prefix<'a>(s: &'a [u8], p: &[u8]) -> (r: Option<&'a [u8]>)
    ensures
        match r {
            Some(t) => spec_strip_prefix(s@, p@) == Some(t@),
            None => spec_strip_prefix(s@, p@) is None,
        },
{
    if matches_at_exec(s, p, 0) {
        Some(vstd::slice::slice_subrange(s, p.len(), s.len()))
    } else {
        None
    }
}

/// `s` without the suffix `p`, when it has that suffix.
pub fn strip_suffix<'a>(s: &'a [u8], p: &[u8]) -> (r: Option<&'a [u8]>)
    ensures
        match r {
            Some(t) => spec_strip_suffix(s@, p@) == Some(t@),
            None => spec_strip_suffix(s@, p@) is None,
        },
{
    if p.len() <= s.len() && matches_at_exec(s, p, s.len() - p.len()) {
        Some(vstd::slice::slice_subrange(s, 0, s.len() - p.len()))
    } else {
        None
    }
}

/// The first index at or after `start` where `p` occurs in `s`.
pub fn find_from(s: &[u8], p: &[u8], start: usize) -> (r: Option<usize>)
    ensures
        match r {
            Some(i) => spec_find_from(s@, p@, start as int) == Some(i as int),
            None => spec_find_from(s@, p@, start as int) is None,
        },
{
    let mut i = start;
    while i <= s.len() && p.len() <= s.len() - i
        invariant
            start <= i,
            spec_find_from(s@, p@, start as int) == spec_find_from(s@, p@, i as int),
        decreases s.len() + 1 - i,
    {
        if matches_at_exec(s, p, i) {
            return Some(i);
        }
        if i == s.len() {
            assert(spec_find_from(s@, p@, i + 1) is None);
            return None;
        }
        i += 1;
    }
    None
}

/// The first index where `p` occurs in `s`.
pub fn find(s: &[u8], p: &[u8]) -> (r: Option<usize>)
    ensures
        match r {
            Some(i) => spec_find(s@, p@) == Some(i as int),
            None => spec_find(s@, p@) is None,
        },
{
    find_from(s, p, 0)
}

/// The parts of `s` before and after the first occurrence of `p`.
pub fn split_once<'a>(s: &'a [u8], p: &[u8]) -> (r: Option<(&'a [u8], &'a [u8])>)
    ensures
        match r {
            Some((a, b)) => spec_split_once(s@, p@) == Some((a@, b@)),
            None => spec_split_once(s@, p@) is None,
        },
{
    match find(s, p) {
        Some(i) => {
            proof {
                lemma_find_from_bounds(s@, p@, 0);
                assert(spec_find_from(s@, p@, 0) == Some(i as int));
            }
            assert(i + p.len() <= s.len());
            Some(
                (
                    vstd::slice::slice_subrange(s, 0, i),
                    vstd::slice::slice_subrange(s, i + p.len(), s.len()),
                ),
            )
        },
        None => None,
    }
}

/// The first index at or after `start` that holds `a` or `b`.
pub fn find_either_from(s: &[u8], a: u8, b: u8, start: usize) -> (r: Option<usize>)
    ensures
        match r {
            Some(i) => spec_find_either_from(s@, a, b, start as int) == Some(i as int),
            None => spec_find_either_from(s@, a, b, start as int) is None,
        },
{
    let mut i = start;
    while i < s.len()
        invariant
            start <= i,
            spec_find_either_from(s@, a, b, start as int) == spec_find_either_from(
                s@,
                a,
                b,
                i as int,
            ),
        decreases s.len() - i,
    {
        if s[i] == a || s[i] == b {
            return Some(i);
        }
        i += 1;
    }
    None
}

/// A match found by `spec_find_from` lies inside `s`, at or after `i`.
pub proof fn lemma_find_from_bounds(s: Seq<u8>, p: Seq<u8>, i: int)
    ensures
        spec_find_from(s, p, i) matches Some(j) ==> i <= j && j + p.len() <= s.len()
            && matches_at(s, p, j),
    decreases s.len() + 1 - i,
{
    if !(i < 0 || i + p.len() > s.len()) && !matches_at(s, p, i) {
        lemma_find_from_bounds(s, p, i + 1);
    }
}

/// A match found by `spec_find_either_from` lies inside `s`, at or after `i`.
pub proof fn lemma_find_either_bounds(s: Seq<u8>, a: u8, b: u8, i: int)
    ensures
        spec_find_either_from(s, a, b, i) matches Some(j) ==> i <= j < s.len() && (s[j] == a
            || s[j] == b),
    decreases s.len() - i,
{
    if 0 <= i < s.len() && !(s[i] == a || s[i] == b) {
        lemma_find_either_bounds(s, a, b, i + 1);
    }
}

// ---------------------------------------------------------------------------------------
// Whitespace
// ---------------------------------------------------------------------------------------

/// A one-byte whitespace character: tab, line feed, vertical tab, form feed, carriage
/// return, or space.
pub open spec fn is_ascii_ws(c: u8) -> bool {
    (0x09 <= c <= 0x0d) || c == 0x20
}

/// The length of the UTF-8 encoding of a Unicode `White_Space` character that starts at
/// index `i` of `s`, or 0 when none starts there. Besides the ASCII ones these are U+0085,
/// U+00A0, U+1680, U+2000..=U+200A, U+2028, U+2029, U+202F, U+205F and U+3000.
pub open spec fn ws_len_at(s: Seq<u8>, i: int) -> nat {
    if 0 <= i < s.len() && is_ascii_ws(s[i]) {
        1
    } else if 0 <= i && i + 2 <= s.len() && s[i] == 0xc2 && (s[i + 1] == 0x85 || s[i + 1]
        == 0xa0) {
        2
    } else if 0 <= i && i + 3 <= s.len() && is_ws3(s[i], s[i + 1], s[i + 2]) {
        3
    } else {
        0
    }
}

/// The three-byte UTF-8 encodings of Unicode `White_Space` characters.
pub open spec fn is_ws3(a: u8, b: u8, c: u8) -> bool {
    (a == 0xe1 && b == 0x9a && c == 0x80) || (a == 0xe2 && b == 0x80 && ((0x80 <= c <= 0x8a)
        || c == 0xa8 || c == 0xa9 || c == 0xaf)) || (a == 0xe2 && b == 0x81 && c == 0x9f) || (a
        == 0xe3 && b == 0x80 && c == 0x80)
}

/// The length of the encoding of a whitespace character that ends `s`, or 0.
pub open spec fn ws_len_back(s: Seq<u8>) -> nat {
    let n = s.len() as int;
    if n >= 1 && is_ascii_ws(s[n - 1]) {
        1
    } else if n >= 2 && s[n - 2] == 0xc2 && (s[n - 1] == 0x85 || s[n - 1] == 0xa0) {
        2
    } else if n >= 3 && is_ws3(s[n - 3], s[n - 2], s[n - 1]) {
        3
    } else {
        0
    }
}

/// `s` without its leading whitespace.
pub open spec fn spec_trim_start(s: Seq<u8>) -> Seq<u8>
    decreases s.len(),
{
    if ws_len_at(s, 0) > 0 {
        spec_trim_start(s.subrange(ws_len_at(s, 0) as int, s.len() as int))
    } else {
        s
    }
}

/// `s` without its trailing whitespace.
pub open spec fn spec_trim_end(s: Seq<u8>) -> Seq<u8>
    decreases s.len(),
{
    if ws_len_back(s) > 0 {
        spec_trim_end(s.subrange(0, s.len() - ws_len_back(s)))
    } else {
        s
    }
}

/// `s` without leading and trailing whitespace.
pub open spec fn spec_trim(s: Seq<u8>) -> Seq<u8> {
    spec_trim_end(spec_trim_start(s))
}

fn ws_len_at_exec(s: &[u8], i: usize) -> (r: usize)
    requires
        i <= s.len(),
    ensures
        r == ws_len_at(s@, i as int),
{
    let n = s.len() - i;
    if n >= 1 && ((0x09 <= s[i] && s[i] <= 0x0d) || s[i] == 0x20) {
        1
    } else if n >= 2 && s[i] == 0xc2 && (s[i + 1] == 0x85 || s[i + 1] == 0xa0) {
        2
    } else if n >= 3 && is_ws3_exec(s[i], s[i + 1], s[i + 2]) {
        3
    } else {
        0
    }
}

fn is_ws3_exec(a: u8, b: u8, c: u8) -> (r: bool)
    ensures
        r == is_ws3(a, b, c),
{
    (a == 0xe1 && b == 0x9a && c == 0x80) || (a == 0xe2 && b == 0x80 && ((0x80 <= c && c
        <= 0x8a) || c == 0xa8 || c == 0xa9 || c == 0xaf)) || (a == 0xe2 && b == 0x81 && c
        == 0x9f) || (a == 0xe3 && b == 0x80 && c == 0x80)
}

/// `s` without its leading whitespace.
pub fn trim_start(s: &[u8]) -> (r: &[u8])
    ensures
        r@ == spec_trim_start(s@),
{
    let mut i: usize = 0;
    assert(s@.subrange(0, s.len() as int) =~= s@);
    while i < s.len()
        invariant
            i <= s.len(),
            spec_trim_start(s@) == spec_trim_start(s@.subrange(i as int, s.len() as int)),
        ensures
            i <= s.len(),
            spec_trim_start(s@) == spec_trim_start(s@.subrange(i as int, s.len() as int)),
            ws_len_at(s@, i as int) == 0,
        decreases s.len() - i,
    {
        let k = ws_len_at_exec(s, i);
        let ghost rest = s@.subrange(i as int, s.len() as int);
        assert(ws_len_at(rest, 0) == ws_len_at(s@, i as int));
        if k == 0 {
            break;
        }
        assert(rest.subrange(k as int, rest.len() as int) =~= s@.subrange(
            i + k,
            s.len() as int,
        ));
        i += k;
    }
    let r = vstd::slice::slice_subrange(s, i, s.len());
    assert(ws_len_at(r@, 0) == ws_len_at(s@, i as int));
    r
}

/// `s` without its trailing whitespace.
pub fn trim_end(s: &[u8]) -> (r: &[u8])
    ensures
        r@ == spec_trim_end(s@),
{
    let mut n: usize = s.len();
    assert(s@.subrange(0, s.len() as int) =~= s@);
    loop
        invariant
            n <= s.len(),
            spec_trim_end(s@) == spec_trim_end(s@.subrange(0, n as int)),
        ensures
            n <= s.len(),
            spec_trim_end(s@) == s@.subrange(0, n as int),
        decreases n,
    {
        let ghost t = s@.subrange(0, n as int);
        let k: usize = if n >= 1 && ((0x09 <= s[n - 1] && s[n - 1] <= 0x0d) || s[n - 1] == 0x20) {
            1
        } else if n >= 2 && s[n - 2] == 0xc2 && (s[n - 1] == 0x85 || s[n - 1] == 0xa0) {
            2
        } else if n >= 3 && is_ws3_exec(s[n - 3], s[n - 2], s[n - 1]) {
            3
        } else {
            0
        };
        assert(k == ws_len_back(t));
        if k == 0 {
            assert(spec_trim_end(t) == t);
            break;
        }
        assert(t.subrange(0, t.len() - k) =~= s@.subrange(0, n - k));
        n -= k;
    }
    vstd::slice::slice_subrange(s, 0, n)
}

/// `s` without leading and trailing whitespace.
pub fn trim(s: &[u8]) -> (r: &[u8])
    ensures
        r@ == spec_trim(s@),
{
    trim_end(trim_start(s))
}


/// Trimming leaves the start of a sequence that starts with an ASCII byte other than
/// whitespace alone; in particular its first byte stays first.
pub proof fn lemma_trim_keeps_leading_non_ws(s: Seq<u8>)
    requires
        s.len() > 0,
        s[0] < 0x80,
        !is_ascii_ws(s[0]),
    ensures
        spec_trim_start(s) == s,
        spec_trim(s).len() > 0 && spec_trim(s)[0] == s[0],
{
    assert(ws_len_at(s, 0) == 0);
    lemma_trim_end_keeps_first(s);
}

/// Trimming the end of a sequence that starts with a non-whitespace ASCII byte keeps it.
pub proof fn lemma_trim_end_keeps_first(s: Seq<u8>)
    requires
        s.len() > 0,
        s[0] < 0x80,
        !is_ascii_ws(s[0]),
    ensures
        spec_trim_end(s).len() > 0 && spec_trim_end(s)[0] == s[0],
    decreases s.len(),
{
    let k = ws_len_back(s);
    if k > 0 {
        if s.len() == 1 {
            assert(k == 1);
        } else if s.len() == 2 && k == 2 {
            assert(s[0] == 0xc2);
        } else if s.len() == 3 && k == 3 {
            assert(s[0] >= 0xe1);
        } else {
            let t = s.subrange(0, s.len() - k);
            assert(t[0] == s[0]);
            lemma_trim_end_keeps_first(t);
        }
    }
}


/// Trimming never lengthens.
pub proof fn lemma_trim_len(s: Seq<u8>)
    ensures
        spec_trim_start(s).len() <= s.len(),
        spec_trim_end(s).len() <= s.len(),
        spec_trim(s).len() <= s.len(),
    decreases s.len(),
{
    if ws_len_at(s, 0) > 0 {
        lemma_trim_len(s.subrange(ws_len_at(s, 0) as int, s.len() as int));
    }
    if ws_len_back(s) > 0 {
        lemma_trim_len(s.subrange(0, s.len() - ws_len_back(s)));
    }
    lemma_trim_end_len(spec_trim_start(s));
}

proof fn lemma_trim_end_len(s: Seq<u8>)
    ensures
        spec_trim_end(s).len() <= s.len(),
    decreases s.len(),
{
    if ws_len_back(s) > 0 {
        lemma_trim_end_len(s.subrange(0, s.len() - ws_len_back(s)));
    }
}

// ---------------------------------------------------------------------------------------
// Character classes and numbers
// ---------------------------------------------------------------------------------------

/// An ASCII decimal digit.
pub open spec fn is_digit(c: u8) -> bool {
    0x30 <= c <= 0x39
}

/// An ASCII hexadecimal digit, in either case.
pub open spec fn is_hex_digit(c: u8) -> bool {
    is_digit(c) || (0x41 <= c <= 0x46) || (0x61 <= c <= 0x66)
}

/// The value of a hexadecimal digit.
pub open spec fn hex_digit_value(c: u8) -> nat {
    if is_digit(c) {
        (c - 0x30) as nat
    } else if 0x41 <= c <= 0x46 {
        (c - 0x41 + 10) as nat
    } else {
        (c - 0x61 + 10) as nat
    }
}

/// An ASCII letter.
pub open spec fn is_alpha(c: u8) -> bool {
    (0x41 <= c <= 0x5a) || (0x61 <= c <= 0x7a)
}

/// An ASCII letter or digit.
pub open spec fn is_alnum(c: u8) -> bool {
    is_alpha(c) || is_digit(c)
}

/// Every byte of `s` satisfies `f`.
pub open spec fn all_bytes(s: Seq<u8>, f: spec_fn(u8) -> bool) -> bool {
    forall|i: int| 0 <= i < s.len() ==> f(#[trigger] s[i])
}

/// The value of a string of decimal digits, most significant first.
pub open spec fn digits_value(s: Seq<u8>) -> nat
    decreases s.len(),
{
    if s.len() == 0 {
        0
    } else {
        digits_value(s.drop_last()) * 10 + (s.last() - 0x30) as nat
    }
}

/// The value of a string of hexadecimal digits, most significant first.
pub open spec fn hex_digits_value(s: Seq<u8>) -> nat
    decreases s.len(),
{
    if s.len() == 0 {
        0
    } else {
        hex_digits_value(s.drop_last()) * 16 + hex_digit_value(s.last())
    }
}

/// The integer that Rust's integer parsing reads from `s`: an optional `+` or `-` and one
/// or more decimal digits, nothing else. (Whether it fits a given type is a separate test.)
pub open spec fn spec_decimal(s: Seq<u8>) -> Option<int> {
    if s.len() > 0 && (s[0] == 0x2b || s[0] == 0x2d) {
        let digits = s.drop_first();
        if digits.len() > 0 && all_bytes(digits, |c: u8| is_digit(c)) {
            if s[0] == 0x2d {
                Some(-(digits_value(digits) as int))
            } else {
                Some(digits_value(digits) as int)
            }
        } else {
            None
        }
    } else if s.len() > 0 && all_bytes(s, |c: u8| is_digit(c)) {
        Some(digits_value(s) as int)
    } else {
        None
    }
}

/// The value that Rust's radix-16 parsing of an unsigned type reads from `s`: an optional
/// `+` and one or more hexadecimal digits.
pub open spec fn spec_hex(s: Seq<u8>) -> Option<nat> {
    let digits = if s.len() > 0 && s[0] == 0x2b {
        s.drop_first()
    } else {
        s
    };
    if digits.len() > 0 && all_bytes(digits, |c: u8| is_hex_digit(c)) {
        Some(hex_digits_value(digits))
    } else {
        None
    }
}

proof fn lemma_digits_value_step(s: Seq<u8>, i: int)
    requires
        0 <= i < s.len(),
    ensures
        digits_value(s.subrange(0, i + 1)) == digits_value(s.subrange(0, i)) * 10 + (s[i]
            - 0x30) as nat,
{
    assert(s.subrange(0, i + 1).drop_last() =~= s.subrange(0, i));
}

proof fn lemma_hex_value_step(s: Seq<u8>, i: int)
    requires
        0 <= i < s.len(),
    ensures
        hex_digits_value(s.subrange(0, i + 1)) == hex_digits_value(s.subrange(0, i)) * 16
            + hex_digit_value(s[i]),
{
    assert(s.subrange(0, i + 1).drop_last() =~= s.subrange(0, i));
}

/// A bound on the integers that `parse_decimal` reports.
pub open spec fn decimal_limit() -> int {
    0x7fff_ffff_ffff_ffff_ffff_ffff_ffff_ffff
}

/// The value of a run of decimal digits, when the run is non-empty, consists of digits only,
/// and its value is at most `decimal_limit()`.
fn digits_to_int(s: &[u8]) -> (r: Option<i128>)
    ensures
        match r {
            Some(v) => s@.len() > 0 && all_bytes(s@, |c: u8| is_digit(c)) && v == digits_value(
                s@,
            ) && v <= decimal_limit(),
            None => !(s@.len() > 0 && all_bytes(s@, |c: u8| is_digit(c)) && digits_value(s@)
                <= decimal_limit()),
        },
{
    if s.len() == 0 {
        return None;
    }
    let mut acc: u128 = 0;
    let mut i: usize = 0;
    while i < s.len()
        invariant
            i <= s.len(),
            acc == digits_value(s@.subrange(0, i as int)),
            acc <= decimal_limit(),
            forall|j: int| 0 <= j < i ==> is_digit(#[trigger] s@[j]),
        decreases s.len() - i,
    {
        let c = s[i];
        if !(0x30 <= c && c <= 0x39) {
            return None;
        }
        proof {
            lemma_digits_value_step(s@, i as int);
        }
        let d = (c - 0x30) as u128;
        if acc > (0x7fff_ffff_ffff_ffff_ffff_ffff_ffff_ffffu128 - d) / 10 {
            proof {
                if forall|j: int| 0 <= j < s.len() ==> is_digit(#[trigger] s@[j]) {
                    lemma_digits_monotone(s@, i as int + 1);
                }
            }
            return None;
        }
        acc = acc * 10 + d;
        i += 1;
    }
    assert(s@.subrange(0, s.len() as int) =~= s@);
    Some(acc as i128)
}

/// A longer prefix of digits has at least the value of a shorter one.
proof fn lemma_digits_monotone(s: Seq<u8>, i: int)
    requires
        0 <= i <= s.len(),
        forall|j: int| 0 <= j < s.len() ==> is_digit(#[trigger] s[j]),
    ensures
        digits_value(s.subrange(0, i)) <= digits_value(s),
    decreases s.len() - i,
{
    if i < s.len() {
        lemma_digits_monotone(s, i + 1);
        lemma_digits_value_step(s, i);
    } else {
        assert(s.subrange(0, i) =~= s);
    }
}

/// The integer that Rust's integer parsing reads from `s`, when its magnitude is at most
/// `decimal_limit()` (enough for every integer type used here).
pub fn parse_decimal(s: &[u8]) -> (r: Option<i128>)
    ensures
        match r {
            Some(v) => spec_decimal(s@) == Some(v as int),
            None => spec_decimal(s@) matches Some(v) ==> (v > decimal_limit() || v
                < -decimal_limit()),
        },
{
    if s.len() > 0 && (s[0] == 0x2b || s[0] == 0x2d) {
        let digits = vstd::slice::slice_subrange(s, 1, s.len());
        assert(digits@ =~= s@.drop_first());
        match digits_to_int(digits) {
            Some(v) => if s[0] == 0x2d {
                Some(-v)
            } else {
                Some(v)
            },
            None => None,
        }
    } else {
        digits_to_int(s)
    }
}


fn all_digits(s: &[u8]) -> (r: bool)
    ensures
        r == all_bytes(s@, |c: u8| is_digit(c)),
{
    let mut i: usize = 0;
    while i < s.len()
        invariant
            i <= s.len(),
            forall|j: int| 0 <= j < i ==> is_digit(#[trigger] s@[j]),
        decreases s.len() - i,
    {
        if !(0x30 <= s[i] && s[i] <= 0x39) {
            assert(!is_digit(s@[i as int]));
            return false;
        }
        i += 1;
    }
    true
}

/// Whether `s` is written as a decimal integer (whatever its size).
pub fn is_decimal_syntax(s: &[u8]) -> (r: bool)
    ensures
        r == (spec_decimal(s@) is Some),
{
    if s.len() > 0 && (s[0] == 0x2b || s[0] == 0x2d) {
        let digits = vstd::slice::slice_subrange(s, 1, s.len());
        assert(digits@ =~= s@.drop_first());
        digits.len() > 0 && all_digits(digits)
    } else {
        s.len() > 0 && all_digits(s)
    }
}

/// The value of a run of hexadecimal digits, when it is non-empty, consists of hex digits
/// only, and fits in a `u64`.
fn hex_digits_to_u64(s: &[u8]) -> (r: Option<u64>)
    ensures
        match r {
            Some(v) => s@.len() > 0 && all_bytes(s@, |c: u8| is_hex_digit(c)) && v
                == hex_digits_value(s@),
            None => !(s@.len() > 0 && all_bytes(s@, |c: u8| is_hex_digit(c))
                && hex_digits_value(s@) <= u64::MAX),
        },
{
    if s.len() == 0 {
        return None;
    }
    let mut acc: u64 = 0;
    let mut i: usize = 0;
    while i < s.len()
        invariant
            i <= s.len(),
            acc == hex_digits_value(s@.subrange(0, i as int)),
            forall|j: int| 0 <= j < i ==> is_hex_digit(#[trigger] s@[j]),
        decreases s.len() - i,
    {
        let c = s[i];
        let d: u64 = if 0x30 <= c && c <= 0x39 {
            (c - 0x30) as u64
        } else if 0x41 <= c && c <= 0x46 {
            (c - 0x41 + 10) as u64
        } else if 0x61 <= c && c <= 0x66 {
            (c - 0x61 + 10) as u64
        } else {
            return None;
        };
        proof {
            lemma_hex_value_step(s@, i as int);
        }
        if acc > (u64::MAX - d) / 16 {
            proof {
                if forall|j: int| 0 <= j < s.len() ==> is_hex_digit(#[trigger] s@[j]) {
                    lemma_hex_digits_monotone(s@, i as int + 1);
                }
            }
            return None;
        }
        acc = acc * 16 + d;
        i += 1;
    }
    assert(s@.subrange(0, s.len() as int) =~= s@);
    Some(acc)
}

/// A longer prefix of hex digits has at least the value of a shorter one.
proof fn lemma_hex_digits_monotone(s: Seq<u8>, i: int)
    requires
        0 <= i <= s.len(),
        forall|j: int| 0 <= j < s.len() ==> is_hex_digit(#[trigger] s[j]),
    ensures
        hex_digits_value(s.subrange(0, i)) <= hex_digits_value(s),
    decreases s.len() - i,
{
    if i < s.len() {
        lemma_hex_digits_monotone(s, i + 1);
        lemma_hex_value_step(s, i);
    } else {
        assert(s.subrange(0, i) =~= s);
    }
}

/// The value of an optional `+` and hexadecimal digits, when it fits in a `u64`.
pub fn parse_hex(s: &[u8]) -> (r: Option<u64>)
    ensures
        match r {
            Some(v) => spec_hex(s@) == Some(v as nat),
            None => spec_hex(s@) matches Some(v) ==> v > u64::MAX,
        },
{
    if s.len() > 0 && s[0] == 0x2b {
        let digits = vstd::slice::slice_subrange(s, 1, s.len());
        assert(digits@ =~= s@.drop_first());
        hex_digits_to_u64(digits)
    } else {
        hex_digits_to_u64(s)
    }
}

/// Whether every byte of `s` is a hexadecimal digit.
pub fn all_hex_digits(s: &[u8]) -> (r: bool)
    ensures
        r == all_bytes(s@, |c: u8| is_hex_digit(c)),
{
    let mut i: usize = 0;
    while i < s.len()
        invariant
            i <= s.len(),
            forall|j: int| 0 <= j < i ==> is_hex_digit(#[trigger] s@[j]),
        decreases s.len() - i,
    {
        let c = s[i];
        if !((0x30 <= c && c <= 0x39) || (0x41 <= c && c <= 0x46) || (0x61 <= c && c <= 0x66)) {
            assert(!is_hex_digit(s@[i as int]));
            return false;
        }
        i += 1;
    }
    true
}

/// The value of one hexadecimal digit.
pub fn hex_digit(c: u8) -> (r: u8)
    requires
        is_hex_digit(c),
    ensures
        r == hex_digit_value(c),
{
    if 0x30 <= c && c <= 0x39 {
        c - 0x30
    } else if 0x41 <= c && c <= 0x46 {
        c - 0x41 + 10
    } else {
        c - 0x61 + 10
    }
}

// ---------------------------------------------------------------------------------------
// Identifiers and conversion back to `str`
// ---------------------------------------------------------------------------------------

/// A name that may be given to a static, a label or a function: an ASCII letter followed by
/// ASCII letters, digits and underscores.
pub open spec fn spec_allowed_identifier(s: Seq<u8>) -> bool {
    s.len() > 0 && is_alpha(s[0]) && all_bytes(s, |c: u8| is_alnum(c) || c == 0x5f)
}

/// Whether `s` is an allowed identifier.
pub fn allowed_identifier(s: &[u8]) -> (r: bool)
    ensures
        r == spec_allowed_identifier(s@),
{
    if s.len() == 0 {
        return false;
    }
    let c = s[0];
    if !((0x41 <= c && c <= 0x5a) || (0x61 <= c && c <= 0x7a)) {
        return false;
    }
    let mut i: usize = 0;
    while i < s.len()
        invariant
            i <= s.len(),
            forall|j: int| 0 <= j < i ==> #[trigger] is_alnum(s@[j]) || s@[j] == 0x5f,
        decreases s.len() - i,
    {
        let c = s[i];
        if !((0x41 <= c && c <= 0x5a) || (0x61 <= c && c <= 0x7a) || (0x30 <= c && c <= 0x39)
            || c == 0x5f) {
            assert(!(is_alnum(s@[i as int]) || s@[i as int] == 0x5f));
            return false;
        }
        i += 1;
    }
    true
}

/// Bytes below 0x80 form valid UTF-8.
pub proof fn lemma_ascii_valid_utf8(s: Seq<u8>)
    requires
        forall|i: int| 0 <= i < s.len() ==> #[trigger] s[i] < 0x80,
    ensures
        valid_utf8(s),
    decreases s.len(),
{
    if s.len() > 0 {
        assert(s[0] < 0x80);
        let rest = s.subrange(1, s.len() as int);
        assert forall|i: int| 0 <= i < rest.len() implies #[trigger] rest[i] < 0x80 by {
            assert(rest[i] == s[i + 1]);
        }
        lemma_ascii_valid_utf8(rest);
        let b = s[0];
        assert((b & 0x7f) as u32 <= 0x7f) by (bit_vector);
        assert(pop_first_scalar(s) =~= rest);
    }
}

/// The `str` whose UTF-8 encoding is `b`.
///
/// Trusted: `core::str::from_utf8` returns `Ok` with a `str` over the same bytes exactly
/// when they are valid UTF-8, which the precondition demands.
#[verifier::external_body]
pub fn str_from_utf8(b: &[u8]) -> (r: &str)
    requires
        valid_utf8(b@),
    ensures
        r.spec_bytes() == b@,
{
    core::str::from_utf8(b).unwrap()
}

/// Appends `b[from..to]` to `out`.
pub fn push_all(out: &mut Vec<u8>, b: &[u8], from: usize, to: usize)
    requires
        from <= to <= b.len(),
    ensures
        final(out)@ == old(out)@ + b@.subrange(from as int, to as int),
{
    let mut i = from;
    while i < to
        invariant
            from <= i <= to <= b.len(),
            out@ == old(out)@ + b@.subrange(from as int, i as int),
        decreases to - i,
    {
        out.push(b[i]);
        assert(b@.subrange(from as int, i + 1) =~= b@.subrange(from as int, i as int).push(
            b@[i as int],
        ));
        i += 1;
    }
}

/// A copy of `b`.
pub fn to_vec(b: &[u8]) -> (r: Vec<u8>)
    ensures
        r@ == b@,
{
    let mut out = Vec::new();
    push_all(&mut out, b, 0, b.len());
    assert(b@.subrange(0, b.len() as int) =~= b@);
    assert(out@ =~= b@);
    out
}

/// Overwrites `v[at..at + b.len()]` with `b`.
pub fn overwrite(v: &mut Vec<u8>, at: usize, b: &[u8])
    requires
        at + b.len() <= old(v).len(),
    ensures
        final(v)@ == old(v)@.subrange(0, at as int) + b@ + old(v)@.subrange(
            at + b.len(),
            old(v).len() as int,
        ),
{
    let mut k: usize = 0;
    while k < b.len()
        invariant
            k <= b.len(),
            at + b.len() <= v.len(),
            v.len() == old(v).len(),
            v@ == old(v)@.subrange(0, at as int) + b@.subrange(0, k as int) + old(v)@.subrange(
                at + k,
                old(v).len() as int,
            ),
        decreases b.len() - k,
    {
        v.set(at + k, b[k]);
        assert(v@ =~= old(v)@.subrange(0, at as int) + b@.subrange(0, k + 1) + old(v)@.subrange(
            at + k + 1,
            old(v).len() as int,
        ));
        k += 1;
    }
    assert(b@.subrange(0, b.len() as int) =~= b@);
}

/// Trimming the start leaves no whitespace at the start.
proof fn lemma_trim_start_clean(s: Seq<u8>)
    ensures
        ws_len_at(spec_trim_start(s), 0) == 0,
    decreases s.len(),
{
    if ws_len_at(s, 0) > 0 {
        lemma_trim_start_clean(s.subrange(ws_len_at(s, 0) as int, s.len() as int));
    }
}

/// Trimming the end leaves no whitespace at the end, and keeps a prefix.
proof fn lemma_trim_end_clean(s: Seq<u8>)
    ensures
        ws_len_back(spec_trim_end(s)) == 0,
        spec_trim_end(s).len() <= s.len(),
        spec_trim_end(s) == s.subrange(0, spec_trim_end(s).len() as int),
    decreases s.len(),
{
    if ws_len_back(s) > 0 {
        let t = s.subrange(0, s.len() - ws_len_back(s));
        lemma_trim_end_clean(t);
        assert(spec_trim_end(s) == spec_trim_end(t));
        assert(t.subrange(0, spec_trim_end(t).len() as int) =~= s.subrange(
            0,
            spec_trim_end(t).len() as int,
        ));
    } else {
        assert(s.subrange(0, s.len() as int) =~= s);
    }
}

/// A sequence that does not start with whitespace keeps not doing so when cut shorter.
proof fn lemma_ws_prefix(s: Seq<u8>, n: int)
    requires
        0 <= n <= s.len(),
        ws_len_at(s, 0) == 0,
    ensures
        ws_len_at(s.subrange(0, n), 0) == 0,
{
    let t = s.subrange(0, n);
    if t.len() >= 1 {
        assert(t[0] == s[0]);
    }
    if t.len() >= 2 {
        assert(t[1] == s[1]);
    }
    if t.len() >= 3 {
        assert(t[2] == s[2]);
    }
}

/// Trimming twice is trimming once.
pub proof fn lemma_trim_idempotent(s: Seq<u8>)
    ensures
        spec_trim(spec_trim(s)) == spec_trim(s),
{
    let x = spec_trim_start(s);
    let y = spec_trim_end(x);
    lemma_trim_start_clean(s);
    lemma_trim_end_clean(x);
    lemma_ws_prefix(x, y.len() as int);
    assert(spec_trim_start(y) == y);
    lemma_trim_end_clean(y);
    assert(spec_trim_end(y) == y);
}

/// A message made of `head`, the quoted text `item`, then `tail`; it is valid UTF-8 when
/// `item` is.
pub fn compose(head: &str, item: &[u8], tail: &str) -> (r: Vec<u8>)
    ensures
        r@ == head.spec_bytes() + item@ + tail.spec_bytes(),
        valid_utf8(item@) ==> valid_utf8(r@),
{
    let h = head.as_bytes();
    let t = tail.as_bytes();
    let mut r = to_vec(h);
    push_all(&mut r, item, 0, item.len());
    push_all(&mut r, t, 0, t.len());
    assert(item@.subrange(0, item@.len() as int) =~= item@);
    assert(t@.subrange(0, t@.len() as int) =~= t@);
    proof {
        encode_utf8_valid_utf8(head@);
        encode_utf8_valid_utf8(tail@);
        if valid_utf8(item@) {
            valid_utf8_concat(h@, item@);
            valid_utf8_concat(h@ + item@, t@);
        }
    }
    r
}

/// The lowercase hexadecimal digit of `d`.
pub open spec fn spec_hex_char(d: u8) -> u8 {
    if d < 10 {
        (0x30 + d) as u8
    } else {
        (0x61 + d - 10) as u8
    }
}

/// `c` in lowercase hexadecimal, without leading zeros.
pub open spec fn spec_lower_hex(c: u8) -> Seq<u8> {
    if c < 16 {
        seq![spec_hex_char(c)]
    } else {
        seq![spec_hex_char(c / 16), spec_hex_char(c % 16)]
    }
}

/// `c` in lowercase hexadecimal, without leading zeros; it is ASCII.
pub fn lower_hex(c: u8) -> (r: Vec<u8>)
    ensures
        r@ == spec_lower_hex(c),
        valid_utf8(r@),
{
    let mut r: Vec<u8> = Vec::new();
    if c >= 16 {
        let d = c / 16;
        r.push(if d < 10 { 0x30 + d } else { 0x61 + d - 10 });
    }
    let d = c % 16;
    r.push(if d < 10 { 0x30 + d } else { 0x61 + d - 10 });
    proof {
        lemma_ascii_valid_utf8(r@);
    }
    assert(r@ =~= spec_lower_hex(c));
    r
}

/// The UTF-8 encoding of the character numbered `c`, as the byte read as a character.
pub open spec fn spec_byte_char_utf8(c: u8) -> Seq<u8> {
    if c < 0x80 {
        seq![c]
    } else {
        seq![(0xc0u8 | (c >> 6u8)) as u8, (0x80u8 | (c & 0x3fu8)) as u8]
    }
}

/// The UTF-8 encoding of the character numbered `c`.
pub fn byte_char_utf8(c: u8) -> (r: Vec<u8>)
    ensures
        r@ == spec_byte_char_utf8(c),
        valid_utf8(r@),
{
    let mut r: Vec<u8> = Vec::new();
    if c < 0x80 {
        r.push(c);
        proof {
            lemma_ascii_valid_utf8(r@);
        }
    } else {
        let a: u8 = 0xc0u8 | (c >> 6u8);
        let b: u8 = 0x80u8 | (c & 0x3fu8);
        r.push(a);
        r.push(b);
        proof {
            assert(0xc2 <= a <= 0xc3 && 0x80 <= b <= 0xbf) by (bit_vector)
                requires
                    a == 0xc0u8 | (c >> 6u8),
                    b == 0x80u8 | (c & 0x3fu8),
                    c >= 0x80,
            ;
            assert((((a & 0x1f) as u32) << 6u32) | ((b & 0x3f) as u32) == c as u32) by (bit_vector)
                requires
                    a == 0xc0u8 | (c >> 6u8),
                    b == 0x80u8 | (c & 0x3fu8),
                    c >= 0x80,
            ;
            let s = r@;
            assert(s[0] == a && s[1] == b);
            assert(is_leading_byte_width_2(s[0]) && is_continuation_byte(s[1]));
            assert(length_of_first_codepoint(s) == 2);
            assert(decode_first_codepoint(s) == c as u32);
            assert(valid_first_scalar(s));
            assert(pop_first_scalar(s) =~= Seq::<u8>::empty());
            assert(valid_utf8(Seq::<u8>::empty()));
            assert(valid_utf8(pop_first_scalar(s)));
        }
    }
    assert(r@ =~= spec_byte_char_utf8(c));
    r
}

} // verus!
