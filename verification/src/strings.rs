//! String literals (`"..."` with escapes) and `//` comments in source lines.
use vstd::prelude::*;
use vstd::string::StringSliceAdditionalSpecFns;
use vstd::utf8::*;

use crate::text::{
    byte_char_utf8, compose, lower_hex, spec_hex_char, str_from_utf8, hex_digit, hex_digit_value, is_ascii_ws, is_hex_digit, push_all, spec_strip_prefix, spec_trim, strip_prefix,
    trim,
};

verus! {

/// A byte at which the scan of a string literal stops: a quotation mark, a backslash,
/// or an ASCII control character.
pub open spec fn is_literal_stop(c: u8) -> bool {
    c == 0x22 || c == 0x5c || c < 0x20 || c == 0x7f
}

/// The first index at or after `i` that holds a stop byte.
pub open spec fn spec_find_stop(b: Seq<u8>, i: int) -> Option<int>
    decreases b.len() - i,
{
    if i < 0 || i >= b.len() {
        None
    } else if is_literal_stop(b[i]) {
        Some(i)
    } else {
        spec_find_stop(b, i + 1)
    }
}

/// The byte that a one-character escape `\c` stands for.
pub open spec fn simple_escape(c: u8) -> Option<u8> {
    if c == 0x22 {
        Some(0x22u8)
    } else if c == 0x30 {
        Some(0u8)
    } else if c == 0x5c {
        Some(0x5cu8)
    } else if c == 0x6e {
        Some(0x0au8)
    } else if c == 0x72 {
        Some(0x0du8)
    } else if c == 0x74 {
        Some(0x09u8)
    } else {
        None
    }
}

/// `p` followed by the decoded rest, if the rest decodes.
pub open spec fn prepend(p: Seq<u8>, r: Option<Seq<u8>>) -> Option<Seq<u8>> {
    match r {
        Some(rest) => Some(p + rest),
        None => None,
    }
}

/// The bytes of a string literal's body from index `i` on, up to and including the closing
/// quotation mark, which must be the last byte. The escapes are `\"`, `\0`, `\\`, `\n`,
/// `\r`, `\t` and `\xHH`; a control character, an unknown escape, or a quotation mark
/// before the end make it invalid.
pub open spec fn spec_unescape_from(b: Seq<u8>, i: int) -> Option<Seq<u8>>
    decreases b.len() - i,
{
    match spec_find_stop(b, i) {
        None => None,
        Some(e) => {
            if e < i {
                None
            } else {
                let plain = b.subrange(i, e);
                if b[e] == 0x22 {
                    if e + 1 < b.len() {
                        None
                    } else {
                        Some(plain)
                    }
                } else if b[e] == 0x5c && e + 1 < b.len() {
                    let n = b[e + 1];
                    if n == 0x78 {
                        if e + 3 < b.len() && is_hex_digit(b[e + 2]) && is_hex_digit(b[e + 3]) {
                            let v = (hex_digit_value(b[e + 2]) * 16 + hex_digit_value(
                                b[e + 3],
                            )) as u8;
                            prepend(plain.push(v), spec_unescape_from(b, e + 4))
                        } else {
                            None
                        }
                    } else {
                        match simple_escape(n) {
                            Some(v) => prepend(plain.push(v), spec_unescape_from(b, e + 2)),
                            None => None,
                        }
                    }
                } else {
                    None
                }
            }
        },
    }
}

/// The bytes that a string literal denotes: after trimming, a quotation mark, the body,
/// and a closing quotation mark at the very end.
pub open spec fn spec_parse_string(s: Seq<u8>) -> Option<Seq<u8>> {
    match spec_strip_prefix(spec_trim(s), seq![0x22u8]) {
        Some(body) => spec_unescape_from(body, 0),
        None => None,
    }
}

proof fn lemma_find_stop_bounds(b: Seq<u8>, i: int)
    ensures
        spec_find_stop(b, i) matches Some(e) ==> i <= e < b.len() && is_literal_stop(b[e])
            && forall|k: int| i <= k < e ==> !is_literal_stop(#[trigger] b[k]),
    decreases b.len() - i,
{
    if 0 <= i < b.len() && !is_literal_stop(b[i]) {
        lemma_find_stop_bounds(b, i + 1);
    }
}

fn find_stop(b: &[u8], start: usize) -> (r: Option<usize>)
    ensures
        match r {
            Some(e) => spec_find_stop(b@, start as int) == Some(e as int),
            None => spec_find_stop(b@, start as int) is None,
        },
{
    let mut i = start;
    while i < b.len()
        invariant
            start <= i,
            spec_find_stop(b@, start as int) == spec_find_stop(b@, i as int),
        decreases b.len() - i,
    {
        let c = b[i];
        if c == 0x22 || c == 0x5c || c < 0x20 || c == 0x7f {
            return Some(i);
        }
        i += 1;
    }
    None
}

fn simple_escape_exec(c: u8) -> (r: Option<u8>)
    ensures
        r == simple_escape(c),
{
    if c == 0x22 {
        Some(0x22)
    } else if c == 0x30 {
        Some(0)
    } else if c == 0x5c {
        Some(0x5c)
    } else if c == 0x6e {
        Some(0x0a)
    } else if c == 0x72 {
        Some(0x0d)
    } else if c == 0x74 {
        Some(0x09)
    } else {
        None
    }
}

/// The bytes of a string literal's body from index `start` on (see `spec_unescape_from`).
fn unescape(b: &[u8]) -> (r: Result<Vec<u8>, Vec<u8>>)
    ensures
        match r {
            Ok(v) => spec_unescape_from(b@, 0) == Some(v@),
            Err(m) => spec_unescape_from(b@, 0) is None && valid_utf8(m@),
        },
{
    let mut out: Vec<u8> = Vec::new();
    let mut i: usize = 0;
    while i <= b.len()
        invariant
            i <= b.len(),
            spec_unescape_from(b@, 0) == prepend(out@, spec_unescape_from(b@, i as int)),
        decreases b.len() - i,
    {
        let e = match find_stop(b, i) {
            Some(e) => e,
            None => return Err(compose("missing closing quotation mark", &[], "")),
        };
        proof {
            lemma_find_stop_bounds(b@, i as int);
        }
        let ghost plain = b@.subrange(i as int, e as int);
        let ghost before = out@;
        push_all(&mut out, b, i, e);
        if b[e] == 0x22 {
            if e + 1 < b.len() {
                return Err(compose("unexpected quotation mark within string", &[], ""));
            }
            assert(before + plain =~= out@);
            return Ok(out);
        } else if b[e] == 0x5c && e + 1 < b.len() {
            let n = b[e + 1];
            if n == 0x78 {
                if b.len() - e > 3 && is_hex_exec(b[e + 2]) && is_hex_exec(b[e + 3]) {
                    let v = hex_digit(b[e + 2]) * 16 + hex_digit(b[e + 3]);
                    out.push(v);
                    assert(before + plain.push(v) =~= out@);
                    proof {
                        let rest = spec_unescape_from(b@, e + 4);
                        if rest is Some {
                            assert(before + (plain.push(v) + rest.unwrap()) =~= out@
                                + rest.unwrap());
                        }
                    }
                    i = e + 4;
                } else {
                    return Err(compose("bad hex string", &[], ""));
                }
            } else {
                match simple_escape_exec(n) {
                    Some(v) => {
                        out.push(v);
                        proof {
                            let rest = spec_unescape_from(b@, e + 2);
                            if rest is Some {
                                assert(before + (plain.push(v) + rest.unwrap()) =~= out@
                                    + rest.unwrap());
                            }
                        }
                        i = e + 2;
                    },
                    None => {
                        let c = byte_char_utf8(n);
                        return Err(compose("invalid escape sequence: \\", c.as_slice(), ""));
                    },
                }
            }
        } else if b[e] == 0x5c {
            return Err(compose("missing escape sequence", &[], ""));
        } else {
            let h = lower_hex(b[e]);
            return Err(compose("illegal control character: 0x", h.as_slice(), ""));
        }
    }
    Err(compose("missing closing quotation mark", &[], ""))
}

fn is_hex_exec(c: u8) -> (r: bool)
    ensures
        r == is_hex_digit(c),
{
    (0x30 <= c && c <= 0x39) || (0x41 <= c && c <= 0x46) || (0x61 <= c && c <= 0x66)
}

/// The bytes of a string literal written in source text; on failure, a message (in UTF-8)
/// that says what is wrong.
pub fn parse_string_bytes(s: &[u8]) -> (r: Result<Vec<u8>, Vec<u8>>)
    ensures
        match r {
            Ok(v) => spec_parse_string(s@) == Some(v@),
            Err(m) => spec_parse_string(s@) is None && valid_utf8(m@),
        },
{
    let quote: &[u8] = &[0x22];
    assert(quote@ == seq![0x22u8]);
    let body = match strip_prefix(trim(s), quote) {
        Some(body) => body,
        None => return Err(compose("missing leading quotation mark", &[], "")),
    };
    unescape(body)
}

/// The bytes of a string literal written in source text, e.g. `"hi\n"`.
pub fn parse_string(s: &str) -> (r: Result<Vec<u8>, String>)
    ensures
        match r {
            Ok(v) => spec_parse_string(s.spec_bytes()) == Some(v@),
            Err(_) => spec_parse_string(s.spec_bytes()) is None,
        },
{
    match parse_string_bytes(s.as_bytes()) {
        Ok(v) => Ok(v),
        Err(m) => Err(str_from_utf8(m.as_slice()).to_owned()),
    }
}

// ---------------------------------------------------------------------------------------
// Comments
// ---------------------------------------------------------------------------------------

/// A byte at which the comment scan stops: a quotation mark, a backslash, or a slash.
pub open spec fn is_comment_stop(c: u8) -> bool {
    c == 0x22 || c == 0x5c || c == 0x2f
}

/// The first index at or after `i` that holds a comment-scan stop byte.
pub open spec fn spec_find_comment_stop(b: Seq<u8>, i: int) -> Option<int>
    decreases b.len() - i,
{
    if i < 0 || i >= b.len() {
        None
    } else if is_comment_stop(b[i]) {
        Some(i)
    } else {
        spec_find_comment_stop(b, i + 1)
    }
}

/// Where the comment starts in `b`, scanning from `i` with `inside` telling whether the
/// scan is inside a string: a quotation mark toggles `inside`, `\"` and `\\` are skipped
/// as a whole, and `//` outside a string starts the comment.
pub open spec fn spec_comment_pos(b: Seq<u8>, i: int, inside: bool) -> Option<int>
    decreases b.len() - i,
{
    match spec_find_comment_stop(b, i) {
        None => None,
        Some(j) => {
            if j < i || j >= b.len() {
                None
            } else if b[j] == 0x22 {
                spec_comment_pos(b, j + 1, !inside)
            } else if j + 2 <= b.len() && b[j] == 0x5c && (b[j + 1] == 0x22 || b[j + 1] == 0x5c) {
                spec_comment_pos(b, j + 2, inside)
            } else if j + 2 <= b.len() && b[j] == 0x2f && b[j + 1] == 0x2f && !inside {
                Some(j)
            } else {
                spec_comment_pos(b, j + 1, inside)
            }
        },
    }
}

/// The line without its `//` comment.
pub open spec fn spec_strip_comments(b: Seq<u8>) -> Seq<u8> {
    match spec_comment_pos(b, 0, false) {
        Some(j) => b.subrange(0, j),
        None => b,
    }
}

proof fn lemma_find_comment_stop_bounds(b: Seq<u8>, i: int)
    ensures
        spec_find_comment_stop(b, i) matches Some(e) ==> i <= e < b.len() && is_comment_stop(
            b[e],
        ),
    decreases b.len() - i,
{
    if 0 <= i < b.len() && !is_comment_stop(b[i]) {
        lemma_find_comment_stop_bounds(b, i + 1);
    }
}

proof fn lemma_comment_pos_bounds(b: Seq<u8>, i: int, inside: bool)
    ensures
        spec_comment_pos(b, i, inside) matches Some(j) ==> 0 <= j && j + 2 <= b.len() && b[j]
            == 0x2f && b[j + 1] == 0x2f,
    decreases b.len() - i,
{
    lemma_find_comment_stop_bounds(b, i);
    match spec_find_comment_stop(b, i) {
        None => {},
        Some(j) => {
            if j < i || j >= b.len() {
            } else if b[j] == 0x22 {
                lemma_comment_pos_bounds(b, j + 1, !inside);
            } else if j + 2 <= b.len() && b[j] == 0x5c && (b[j + 1] == 0x22 || b[j + 1] == 0x5c) {
                lemma_comment_pos_bounds(b, j + 2, inside);
            } else if j + 2 <= b.len() && b[j] == 0x2f && b[j + 1] == 0x2f && !inside {
            } else {
                lemma_comment_pos_bounds(b, j + 1, inside);
            }
        },
    }
}

fn find_comment_stop(b: &[u8], start: usize) -> (r: Option<usize>)
    ensures
        match r {
            Some(e) => spec_find_comment_stop(b@, start as int) == Some(e as int),
            None => spec_find_comment_stop(b@, start as int) is None,
        },
{
    let mut i = start;
    while i < b.len()
        invariant
            start <= i,
            spec_find_comment_stop(b@, start as int) == spec_find_comment_stop(b@, i as int),
        decreases b.len() - i,
    {
        let c = b[i];
        if c == 0x22 || c == 0x5c || c == 0x2f {
            return Some(i);
        }
        i += 1;
    }
    None
}

/// Where the `//` comment of the line starts, if it has one.
pub fn comment_position(b: &[u8]) -> (r: Option<usize>)
    ensures
        match r {
            Some(j) => spec_comment_pos(b@, 0, false) == Some(j as int),
            None => spec_comment_pos(b@, 0, false) is None,
        },
{
    let mut i: usize = 0;
    let mut inside = false;
    loop
        invariant
            i <= b.len(),
            spec_comment_pos(b@, 0, false) == spec_comment_pos(b@, i as int, inside),
        decreases b.len() - i,
    {
        let j = match find_comment_stop(b, i) {
            Some(j) => j,
            None => return None,
        };
        proof {
            lemma_find_comment_stop_bounds(b@, i as int);
        }
        if b[j] == 0x22 {
            inside = !inside;
            i = j + 1;
        } else if b.len() - j >= 2 && b[j] == 0x5c && (b[j + 1] == 0x22 || b[j + 1] == 0x5c) {
            i = j + 2;
        } else if b.len() - j >= 2 && b[j] == 0x2f && b[j + 1] == 0x2f && !inside {
            return Some(j);
        } else {
            i = j + 1;
        }
    }
}

/// The line without its `//` comment; a `//` inside a string literal does not start one.
pub fn strip_comments(line: &str) -> (r: &str)
    ensures
        r.spec_bytes() == spec_strip_comments(line.spec_bytes()),
{
    let b = line.as_bytes();
    match comment_position(b) {
        Some(j) => {
            proof {
                lemma_comment_pos_bounds(b@, 0, false);
                encode_utf8_valid_utf8(line@);
                is_char_boundary_iff_not_is_continuation_byte(line.spec_bytes(), j as int);
            }
            let (head, _) = line.split_at(j);
            head
        },
        None => line,
    }
}

/// The bytes of the line without its `//` comment.
pub fn strip_comments_bytes(b: &[u8]) -> (r: &[u8])
    ensures
        r@ == spec_strip_comments(b@),
{
    match comment_position(b) {
        Some(j) => {
            proof {
                lemma_comment_pos_bounds(b@, 0, false);
            }
            vstd::slice::slice_subrange(b, 0, j)
        },
        None => b,
    }
}

/// A string literal without escapes, quotation marks or control characters denotes its
/// body.
pub proof fn lemma_plain_string(body: Seq<u8>)
    requires
        forall|k: int| 0 <= k < body.len() ==> !is_literal_stop(#[trigger] body[k]),
    ensures
        spec_parse_string(seq![0x22u8] + body + seq![0x22u8]) == Some(body),
{
    let s = seq![0x22u8] + body + seq![0x22u8];
    crate::text::lemma_trim_keeps_leading_non_ws(s);
    assert(crate::text::ws_len_back(s) == 0);
    assert(crate::text::spec_trim_end(s) == s);
    assert(spec_trim(s) == s);
    let b2 = body + seq![0x22u8];
    assert(s.subrange(1, s.len() as int) =~= b2);
    assert(s.subrange(0, 1) =~= seq![0x22u8]);
    assert(spec_strip_prefix(s, seq![0x22u8]) == Some(b2));
    assert forall|k: int| 0 <= k < body.len() implies !is_literal_stop(#[trigger] b2[k]) by {
        assert(b2[k] == body[k]);
    }
    lemma_find_stop_plain(b2, body.len() as int, 0);
    assert(b2.subrange(0, body.len() as int) =~= body);
    assert(spec_unescape_from(b2, 0) == Some(body));
}

proof fn lemma_find_stop_plain(b: Seq<u8>, n: int, i: int)
    requires
        0 <= i <= n < b.len(),
        forall|k: int| 0 <= k < n ==> !is_literal_stop(#[trigger] b[k]),
        is_literal_stop(b[n]),
    ensures
        spec_find_stop(b, i) == Some(n),
    decreases n - i,
{
    if i < n {
        lemma_find_stop_plain(b, n, i + 1);
    }
}

/// Bytes that a string literal's body holds as they are.
pub open spec fn is_plain(p: Seq<u8>) -> bool {
    forall|k: int| 0 <= k < p.len() ==> !is_literal_stop(#[trigger] p[k])
}

proof fn lemma_find_stop_shift(x: Seq<u8>, r: Seq<u8>, i: int)
    requires
        0 <= i,
    ensures
        spec_find_stop(x + r, x.len() + i) == match spec_find_stop(r, i) {
            Some(e) => Some(e + x.len()),
            None => None::<int>,
        },
    decreases r.len() - i,
{
    if i < r.len() {
        assert((x + r)[x.len() + i] == r[i]);
        if !is_literal_stop(r[i]) {
            lemma_find_stop_shift(x, r, i + 1);
        }
    }
}

/// Decoding from after a prefix is decoding the rest alone.
proof fn lemma_unescape_shift(x: Seq<u8>, r: Seq<u8>, i: int)
    requires
        0 <= i,
    ensures
        spec_unescape_from(x + r, x.len() + i) == spec_unescape_from(r, i),
    decreases r.len() - i,
{
    let b = x + r;
    let n = x.len() as int;
    lemma_find_stop_shift(x, r, i);
    lemma_find_stop_bounds(r, i);
    if let Some(e) = spec_find_stop(r, i) {
        assert(b.subrange(n + i, n + e) =~= r.subrange(i, e));
        assert(b[n + e] == r[e]);
        if e + 1 < r.len() {
            assert(b[n + e + 1] == r[e + 1]);
        }
        if e + 2 < r.len() {
            assert(b[n + e + 2] == r[e + 2]);
        }
        if e + 3 < r.len() {
            assert(b[n + e + 3] == r[e + 3]);
        }
        if e + 4 <= r.len() {
            lemma_unescape_shift(x, r, e + 4);
        }
        if e + 2 <= r.len() {
            lemma_unescape_shift(x, r, e + 2);
        }
    }
}

/// Inside a string literal, after plain bytes `p`, each of the escapes `\"`, `\0`, `\\`,
/// `\n`, `\r`, `\t` adds exactly the one byte it stands for, and decoding goes on with
/// the rest.
pub proof fn lemma_string_escape(p: Seq<u8>, c: u8, r: Seq<u8>)
    requires
        is_plain(p),
        simple_escape(c) is Some,
    ensures
        spec_unescape_from(p + seq![0x5cu8, c] + r, 0) == prepend(
            p.push(simple_escape(c).unwrap()),
            spec_unescape_from(r, 0),
        ),
{
    let x = p + seq![0x5cu8, c];
    let b = x + r;
    assert(b[p.len() as int] == 0x5c);
    assert(b[p.len() as int + 1] == c);
    lemma_find_stop_plain(b, p.len() as int, 0);
    assert(b.subrange(0, p.len() as int) =~= p);
    lemma_unescape_shift(x, r, 0);
}

/// Inside a string literal, after plain bytes `p`, the escape `\xHH` with two hexadecimal
/// digits adds exactly the byte `0xHH`, and decoding goes on with the rest; without two
/// hexadecimal digits the literal is refused.
pub proof fn lemma_string_hex_escape(p: Seq<u8>, h: u8, l: u8, r: Seq<u8>)
    requires
        is_plain(p),
    ensures
        is_hex_digit(h) && is_hex_digit(l) ==> spec_unescape_from(p + seq![0x5cu8, 0x78u8, h, l] + r, 0)
            == prepend(
            p.push((hex_digit_value(h) * 16 + hex_digit_value(l)) as u8),
            spec_unescape_from(r, 0),
        ),
        !(is_hex_digit(h) && is_hex_digit(l)) ==> spec_unescape_from(p + seq![0x5cu8, 0x78u8, h, l] + r, 0)
            is None,
{
    let x = p + seq![0x5cu8, 0x78u8, h, l];
    let b = x + r;
    let n = p.len() as int;
    assert(b[n] == 0x5c);
    assert(b[n + 1] == 0x78);
    assert(b[n + 2] == h);
    assert(b[n + 3] == l);
    lemma_find_stop_plain(b, n, 0);
    assert(b.subrange(0, n) =~= p);
    lemma_unescape_shift(x, r, 0);
}

/// A string literal's body is refused at an escape other than those above, at a backslash
/// that ends it, and at a raw control character.
pub proof fn lemma_string_refused(p: Seq<u8>, c: u8, r: Seq<u8>)
    requires
        is_plain(p),
    ensures
        simple_escape(c) is None && c != 0x78 ==> spec_unescape_from(p + seq![0x5cu8, c] + r, 0) is None,
        spec_unescape_from(p + seq![0x5cu8], 0) is None,
        (c < 0x20 || c == 0x7f) ==> spec_unescape_from(p + seq![c] + r, 0) is None,
{
    let n = p.len() as int;
    let b1 = p + seq![0x5cu8, c] + r;
    assert(b1[n] == 0x5c);
    assert(b1[n + 1] == c);
    lemma_find_stop_plain(b1, n, 0);
    let b2 = p + seq![0x5cu8];
    assert(b2[n] == 0x5c);
    lemma_find_stop_plain(b2, n, 0);
    if c < 0x20 || c == 0x7f {
        let b3 = p + seq![c] + r;
        assert(b3[n] == c);
        lemma_find_stop_plain(b3, n, 0);
    }
}

/// A string literal's body ends at its closing quotation mark, which must be its last
/// byte: plain bytes `p` and the mark denote `p`, and anything after the mark is refused.
pub proof fn lemma_string_close(p: Seq<u8>, r: Seq<u8>)
    requires
        is_plain(p),
    ensures
        r.len() == 0 ==> spec_unescape_from(p + seq![0x22u8] + r, 0) == Some(p),
        r.len() > 0 ==> spec_unescape_from(p + seq![0x22u8] + r, 0) is None,
{
    let n = p.len() as int;
    let b = p + seq![0x22u8] + r;
    assert(b[n] == 0x22);
    lemma_find_stop_plain(b, n, 0);
    assert(b.subrange(0, n) =~= p);
}

/// A string literal may stand between spaces and tabs: what it denotes is what the body
/// after its opening quotation mark decodes to (the body ends with the closing mark).
pub proof fn lemma_string_quoted(w1: Seq<u8>, body: Seq<u8>, w2: Seq<u8>)
    requires
        forall|k: int| 0 <= k < w1.len() ==> is_ascii_ws(#[trigger] w1[k]),
        forall|k: int| 0 <= k < w2.len() ==> is_ascii_ws(#[trigger] w2[k]),
        body.len() > 0,
        body.last() == 0x22,
    ensures
        spec_parse_string(w1 + seq![0x22u8] + body + w2) == spec_unescape_from(body, 0),
{
    let q = seq![0x22u8] + body;
    lemma_trim_start_ws(w1, q + w2);
    crate::text::lemma_trim_keeps_leading_non_ws(q + w2);
    lemma_trim_end_ws(q, w2);
    let n = q.len() as int;
    assert(q[n - 1] == 0x22);
    assert(crate::text::ws_len_back(q) == 0);
    assert(w1 + seq![0x22u8] + body + w2 =~= w1 + (q + w2));
    assert(q.subrange(1, q.len() as int) =~= body);
    assert(q.subrange(0, 1) =~= seq![0x22u8]);
}

/// A string literal of plain bytes between spaces and tabs denotes exactly those bytes.
pub proof fn lemma_plain_string_spaced(w1: Seq<u8>, body: Seq<u8>, w2: Seq<u8>)
    requires
        forall|k: int| 0 <= k < w1.len() ==> is_ascii_ws(#[trigger] w1[k]),
        forall|k: int| 0 <= k < w2.len() ==> is_ascii_ws(#[trigger] w2[k]),
        is_plain(body),
    ensures
        spec_parse_string(w1 + seq![0x22u8] + body + seq![0x22u8] + w2) == Some(body),
{
    let t = body + seq![0x22u8];
    assert(w1 + seq![0x22u8] + body + seq![0x22u8] + w2 =~= w1 + seq![0x22u8] + t + w2);
    lemma_string_quoted(w1, t, w2);
    lemma_string_close(body, seq![]);
    assert(body + seq![0x22u8] + Seq::<u8>::empty() =~= t);
}

/// How a byte is written inside a string literal: as itself, or, when it would stop the
/// literal, as `\xHH`.
pub open spec fn spec_escape_byte(b: u8) -> Seq<u8> {
    if is_literal_stop(b) {
        seq![0x5cu8, 0x78u8, spec_hex_char(b / 16), spec_hex_char(b % 16)]
    } else {
        seq![b]
    }
}

/// The bytes `v` written inside a string literal, byte by byte.
pub open spec fn spec_escape_bytes(v: Seq<u8>) -> Seq<u8>
    decreases v.len(),
{
    if v.len() == 0 {
        seq![]
    } else {
        spec_escape_byte(v[0]) + spec_escape_bytes(v.drop_first())
    }
}

proof fn lemma_escape_plain_prefix(p: Seq<u8>, r: Seq<u8>)
    requires
        is_plain(p),
    ensures
        spec_escape_bytes(p + r) == p + spec_escape_bytes(r),
    decreases p.len(),
{
    if p.len() == 0 {
        assert(p + r =~= r);
        assert(p + spec_escape_bytes(r) =~= spec_escape_bytes(r));
    } else {
        let q = p.drop_first();
        assert((p + r)[0] == p[0]);
        assert((p + r).drop_first() =~= q + r);
        assert(is_plain(q)) by {
            assert forall|k: int| 0 <= k < q.len() implies !is_literal_stop(#[trigger] q[k]) by {
                assert(q[k] == p[k + 1]);
            }
        }
        lemma_escape_plain_prefix(q, r);
        assert(seq![p[0]] + (q + spec_escape_bytes(r)) =~= p + spec_escape_bytes(r));
    }
}

proof fn lemma_hex_char_digit(d: u8)
    requires
        d < 16,
    ensures
        is_hex_digit(spec_hex_char(d)),
        hex_digit_value(spec_hex_char(d)) == d,
{
}

/// Every byte sequence can be written as a string literal: written byte by byte as above
/// and closed by a quotation mark, a literal's body denotes exactly those bytes.
pub proof fn lemma_string_roundtrip(v: Seq<u8>)
    ensures
        spec_unescape_from(spec_escape_bytes(v) + seq![0x22u8], 0) == Some(v),
    decreases v.len(),
{
    lemma_find_stop_bounds(v, 0);
    match spec_find_stop(v, 0) {
        None => {
            assert(is_plain(v)) by {
                assert forall|k: int| 0 <= k < v.len() implies !is_literal_stop(#[trigger] v[k]) by {
                    lemma_find_stop_none(v, 0, k);
                }
            }
            lemma_escape_plain_prefix(v, seq![]);
            assert(v + Seq::<u8>::empty() =~= v);
            lemma_string_close(v, seq![]);
            assert(v + seq![0x22u8] + Seq::<u8>::empty() =~= v + seq![0x22u8]);
        },
        Some(k) => {
            let p = v.subrange(0, k);
            let b = v[k];
            let r = v.subrange(k + 1, v.len() as int);
            assert(is_plain(p)) by {
                assert forall|j: int| 0 <= j < p.len() implies !is_literal_stop(#[trigger] p[j]) by {
                    assert(p[j] == v[j]);
                }
            }
            assert(v =~= p + (seq![b] + r));
            lemma_escape_plain_prefix(p, seq![b] + r);
            assert((seq![b] + r)[0] == b);
            assert((seq![b] + r).drop_first() =~= r);
            let h = spec_hex_char(b / 16);
            let l = spec_hex_char(b % 16);
            lemma_hex_char_digit(b / 16);
            lemma_hex_char_digit(b % 16);
            lemma_string_roundtrip(r);
            let rest = spec_escape_bytes(r) + seq![0x22u8];
            assert(spec_escape_bytes(v) + seq![0x22u8] =~= p + seq![0x5cu8, 0x78u8, h, l] + rest);
            lemma_string_hex_escape(p, h, l, rest);
            assert(((hex_digit_value(h) * 16 + hex_digit_value(l)) as u8) == b);
            assert(p.push(b) + r =~= v);
        },
    }
}

proof fn lemma_find_stop_none(b: Seq<u8>, i: int, k: int)
    requires
        0 <= i <= k < b.len(),
        spec_find_stop(b, i) is None,
    ensures
        !is_literal_stop(b[k]),
    decreases k - i,
{
    if i < k {
        lemma_find_stop_none(b, i + 1, k);
    }
}

proof fn lemma_trim_start_ws(w: Seq<u8>, s: Seq<u8>)
    requires
        forall|k: int| 0 <= k < w.len() ==> is_ascii_ws(#[trigger] w[k]),
    ensures
        crate::text::spec_trim_start(w + s) == crate::text::spec_trim_start(s),
    decreases w.len(),
{
    if w.len() > 0 {
        let t = w + s;
        assert(t[0] == w[0]);
        assert(crate::text::ws_len_at(t, 0) == 1);
        let w2 = w.subrange(1, w.len() as int);
        assert(t.subrange(1, t.len() as int) =~= w2 + s);
        assert forall|k: int| 0 <= k < w2.len() implies is_ascii_ws(#[trigger] w2[k]) by {
            assert(w2[k] == w[k + 1]);
        }
        lemma_trim_start_ws(w2, s);
    } else {
        assert(w + s =~= s);
    }
}

proof fn lemma_trim_end_ws(s: Seq<u8>, w: Seq<u8>)
    requires
        forall|k: int| 0 <= k < w.len() ==> is_ascii_ws(#[trigger] w[k]),
    ensures
        crate::text::spec_trim_end(s + w) == crate::text::spec_trim_end(s),
    decreases w.len(),
{
    if w.len() > 0 {
        let t = s + w;
        assert(t[t.len() - 1] == w[w.len() - 1]);
        assert(crate::text::ws_len_back(t) == 1);
        let w2 = w.subrange(0, w.len() - 1);
        assert(t.subrange(0, t.len() - 1) =~= s + w2);
        assert forall|k: int| 0 <= k < w2.len() implies is_ascii_ws(#[trigger] w2[k]) by {
            assert(w2[k] == w[k]);
        }
        lemma_trim_end_ws(s, w2);
    } else {
        assert(s + w =~= s);
    }
}

proof fn lemma_find_comment_stop_prefix(b: Seq<u8>, n: int, i: int)
    requires
        0 <= i <= n <= b.len(),
    ensures
        spec_find_comment_stop(b, i) matches Some(e) ==> (e < n ==> spec_find_comment_stop(
            b.subrange(0, n),
            i,
        ) == Some(e)),
        (spec_find_comment_stop(b, i) is None || spec_find_comment_stop(b, i).unwrap() >= n)
            ==> spec_find_comment_stop(b.subrange(0, n), i) is None,
    decreases n - i,
{
    let p = b.subrange(0, n);
    lemma_find_comment_stop_bounds(b, i);
    if i < n {
        assert(p[i] == b[i]);
        if !is_comment_stop(b[i]) {
            lemma_find_comment_stop_prefix(b, n, i + 1);
        }
    }
}

proof fn lemma_comment_pos_ge(b: Seq<u8>, i: int, inside: bool)
    ensures
        spec_comment_pos(b, i, inside) matches Some(r) ==> r >= i,
    decreases b.len() - i,
{
    lemma_find_comment_stop_bounds(b, i);
    match spec_find_comment_stop(b, i) {
        None => {},
        Some(j) => {
            if j < i || j >= b.len() {
            } else if b[j] == 0x22 {
                lemma_comment_pos_ge(b, j + 1, !inside);
            } else if j + 2 <= b.len() && b[j] == 0x5c && (b[j + 1] == 0x22 || b[j + 1] == 0x5c) {
                lemma_comment_pos_ge(b, j + 2, inside);
            } else if j + 2 <= b.len() && b[j] == 0x2f && b[j + 1] == 0x2f && !inside {
            } else {
                lemma_comment_pos_ge(b, j + 1, inside);
            }
        },
    }
}

proof fn lemma_comment_pos_prefix(b: Seq<u8>, j: int, i: int, inside: bool)
    requires
        0 <= i <= j,
        spec_comment_pos(b, i, inside) == Some(j),
        j + 2 <= b.len(),
        b[j] == 0x2f,
    ensures
        spec_comment_pos(b.subrange(0, j), i, inside) is None,
    decreases j - i,
{
    let p = b.subrange(0, j);
    lemma_find_comment_stop_bounds(b, i);
    lemma_find_comment_stop_prefix(b, j, i);
    match spec_find_comment_stop(b, i) {
        None => {},
        Some(e) => {
            if e < j {
                assert(p[e] == b[e]);
                if e + 1 < j {
                    assert(p[e + 1] == b[e + 1]);
                }
                if b[e] == 0x22 {
                    lemma_comment_pos_ge(b, e + 1, !inside);
                    lemma_comment_pos_prefix(b, j, e + 1, !inside);
                } else if e + 2 <= b.len() && b[e] == 0x5c && (b[e + 1] == 0x22 || b[e + 1] == 0x5c) {
                    lemma_comment_pos_ge(b, e + 2, inside);
                    lemma_comment_pos_prefix(b, j, e + 2, inside);
                } else if e + 2 <= b.len() && b[e] == 0x2f && b[e + 1] == 0x2f && !inside {
                } else {
                    lemma_comment_pos_ge(b, e + 1, inside);
                    lemma_comment_pos_prefix(b, j, e + 1, inside);
                }
            } else if e > j {
                if b[e] == 0x22 {
                    lemma_comment_pos_ge(b, e + 1, !inside);
                } else if e + 2 <= b.len() && b[e] == 0x5c && (b[e + 1] == 0x22 || b[e + 1] == 0x5c) {
                    lemma_comment_pos_ge(b, e + 2, inside);
                } else {
                    lemma_comment_pos_ge(b, e + 1, inside);
                }
            }
        },
    }
}

/// Stripping a comment only cuts the line short, and stripping again changes nothing.
pub proof fn lemma_strip_comments_idempotent(b: Seq<u8>)
    ensures
        spec_strip_comments(b) == b.subrange(0, spec_strip_comments(b).len() as int),
        spec_strip_comments(spec_strip_comments(b)) == spec_strip_comments(b),
{
    match spec_comment_pos(b, 0, false) {
        Some(j) => {
            lemma_comment_pos_bounds(b, 0, false);
            lemma_comment_pos_prefix(b, j, 0, false);
        },
        None => {
            assert(b.subrange(0, b.len() as int) =~= b);
        },
    }
}

/// A comment is cut off only where `//` begins, and a line without `//` is kept whole.
pub proof fn lemma_strip_comments_cut(b: Seq<u8>)
    ensures
        ({
            let n = spec_strip_comments(b).len() as int;
            n < b.len() ==> n + 2 <= b.len() && b[n] == 0x2f && b[n + 1] == 0x2f
        }),
        (forall|k: int| 0 <= k < b.len() - 1 ==> !(#[trigger] b[k] == 0x2f && b[k + 1] == 0x2f))
            ==> spec_strip_comments(b) == b,
{
    lemma_comment_pos_bounds(b, 0, false);
    if let Some(j) = spec_comment_pos(b, 0, false) {
        assert(b[j] == 0x2f && b[j + 1] == 0x2f);
    }
}

} // verus!
