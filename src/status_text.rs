//! Reading the resident-memory figure out of a process status text
//! (the `/proc/<pid>/status` format: one `Key:  value unit` entry per line), given as
//! the bytes of UTF-8 text. Lines end at `\n`; fields are separated by any character
//! that `char::is_whitespace` accepts.
use vstd::prelude::*;

verus! {

/// A one-byte whitespace character: space and the ASCII controls from tab to carriage return.
pub open spec fn is_ascii_space(b: u8) -> bool {
    b == 0x20u8 || (0x09u8 <= b && b <= 0x0du8)
}

/// Length in bytes of the whitespace character whose UTF-8 form starts at `t[i]` and
/// ends by `e`; 0 where none does. Whitespace is the set that `char::is_whitespace`
/// accepts: U+0009 to U+000D, U+0020, U+0085, U+00A0, U+1680, U+2000 to U+200A, U+2028,
/// U+2029, U+202F, U+205F and U+3000.
pub open spec fn space_len(t: Seq<u8>, i: int, e: int) -> int {
    if i < e && is_ascii_space(t[i]) {
        1
    } else if i + 1 < e && t[i] == 0xc2u8 && (t[i + 1] == 0x85u8 || t[i + 1] == 0xa0u8) {
        2
    } else if i + 2 < e && ((t[i] == 0xe1u8 && t[i + 1] == 0x9au8 && t[i + 2] == 0x80u8) || (
    t[i] == 0xe2u8 && t[i + 1] == 0x80u8 && ((0x80u8 <= t[i + 2] && t[i + 2] <= 0x8au8)
        || t[i + 2] == 0xa8u8 || t[i + 2] == 0xa9u8 || t[i + 2] == 0xafu8)) || (t[i] == 0xe2u8
        && t[i + 1] == 0x81u8 && t[i + 2] == 0x9fu8) || (t[i] == 0xe3u8 && t[i + 1] == 0x80u8
        && t[i + 2] == 0x80u8)) {
        3
    } else {
        0
    }
}

pub open spec fn is_digit(b: u8) -> bool {
    0x30u8 <= b && b <= 0x39u8
}

/// Index of the newline that ends the line holding `i`, or the text's length.
pub open spec fn line_end(t: Seq<u8>, i: int) -> int
    decreases t.len() - i,
{
    if i >= t.len() {
        t.len() as int
    } else if t[i] == 0x0au8 {
        i
    } else {
        line_end(t, i + 1)
    }
}

/// First index in `[i, e)` that starts no whitespace character, or `e`.
pub open spec fn skip_space(t: Seq<u8>, i: int, e: int) -> int
    decreases e - i,
{
    if i >= e {
        e
    } else if space_len(t, i, e) > 0 {
        skip_space(t, i + space_len(t, i, e), e)
    } else {
        i
    }
}

/// First index in `[i, e)` that starts a whitespace character, or `e`.
pub open spec fn token_end(t: Seq<u8>, i: int, e: int) -> int
    decreases e - i,
{
    if i >= e {
        e
    } else if space_len(t, i, e) > 0 {
        i
    } else {
        token_end(t, i + 1, e)
    }
}

/// The line `[s, e)` begins with `VmRSS:`.
pub open spec fn has_rss_key(t: Seq<u8>, s: int, e: int) -> bool {
    &&& s + 6 <= e
    &&& t[s] == 0x56u8  // V
    &&& t[s + 1] == 0x6du8  // m
    &&& t[s + 2] == 0x52u8  // R
    &&& t[s + 3] == 0x53u8  // S
    &&& t[s + 4] == 0x53u8  // S
    &&& t[s + 5] == 0x3au8  // :
}

/// Start of the second whitespace-separated field of the line `[s, e)`
/// (`e` when the line has fewer than two fields).
pub open spec fn second_field_start(t: Seq<u8>, s: int, e: int) -> int {
    skip_space(t, token_end(t, skip_space(t, s, e), e), e)
}

/// Decimal value of the digits `t[lo..hi]`.
pub open spec fn digits_value(t: Seq<u8>, lo: int, hi: int) -> int
    decreases hi - lo,
{
    if hi <= lo {
        0
    } else {
        digits_value(t, lo, hi - 1) * 10 + (t[hi - 1] - 0x30u8)
    }
}

pub open spec fn all_digits(t: Seq<u8>, lo: int, hi: int) -> bool {
    forall|k: int| lo <= k < hi ==> is_digit(#[trigger] t[k])
}

/// An unsigned decimal number in `t[lo..hi]`: an optional `+`, then at least one
/// digit and nothing else, with a value that fits in a `u64`.
pub open spec fn decimal_u64(t: Seq<u8>, lo: int, hi: int) -> Option<u64> {
    let start = if lo < hi && t[lo] == 0x2bu8 { lo + 1 } else { lo };
    if start < hi && all_digits(t, start, hi) && digits_value(t, start, hi) <= u64::MAX {
        Some(digits_value(t, start, hi) as u64)
    } else {
        None
    }
}

/// Termination of `rss_from`: the next line starts past the current one.
#[via_fn]
pub proof fn rss_from_decreases(t: Seq<u8>, s: int) {
    if 0 <= s <= t.len() {
        lemma_line_end_bounds(t, s);
    }
}

/// The resident-memory figure found from the line starting at `s` on: the second field
/// of the first line that begins with `VmRSS:` and has two fields, read as a number,
/// 0 where that field is not a number or no such line exists.
pub open spec fn rss_from(t: Seq<u8>, s: int) -> u64
    decreases t.len() - s,
    via rss_from_decreases
{
    if s < 0 || s >= t.len() {
        0
    } else {
        let e = line_end(t, s);
        let c = second_field_start(t, s, e);
        if has_rss_key(t, s, e) && c < e {
            match decimal_u64(t, c, token_end(t, c, e)) {
                Some(v) => v,
                None => 0,
            }
        } else if e < t.len() {
            rss_from(t, e + 1)
        } else {
            0
        }
    }
}

/// The resident-memory figure, in kB, that a status text gives; 0 where it gives none.
pub open spec fn vm_rss_kb(t: Seq<u8>) -> u64 {
    rss_from(t, 0)
}

pub proof fn lemma_line_end_bounds(t: Seq<u8>, i: int)
    requires
        0 <= i <= t.len(),
    ensures
        i <= line_end(t, i) <= t.len(),
        i <= line_end(t, i) < t.len() ==> t[line_end(t, i)] == 0x0au8,
    decreases t.len() - i,
{
    if i < t.len() && t[i] != 0x0au8 {
        lemma_line_end_bounds(t, i + 1);
    }
}

proof fn lemma_digits_value_monotone(t: Seq<u8>, lo: int, k: int, hi: int)
    requires
        0 <= lo <= k <= hi <= t.len(),
        all_digits(t, lo, hi),
    ensures
        0 <= digits_value(t, lo, k) <= digits_value(t, lo, hi),
    decreases hi - lo,
{
    if lo < hi {
        assert(is_digit(t[hi - 1]));
        if k == hi {
            lemma_digits_value_monotone(t, lo, hi - 1, hi - 1);
        } else {
            lemma_digits_value_monotone(t, lo, k, hi - 1);
        }
    }
}

fn find_line_end(t: &[u8], i: usize) -> (r: usize)
    requires
        i <= t@.len(),
    ensures
        r == line_end(t@, i as int),
{
    let mut j: usize = i;
    while j < t.len() && t[j] != 0x0au8
        invariant
            i <= j <= t@.len(),
            line_end(t@, j as int) == line_end(t@, i as int),
        decreases t@.len() - j,
    {
        j = j + 1;
    }
    j
}

fn space_len_at(t: &[u8], i: usize, e: usize) -> (r: usize)
    requires
        i <= e <= t@.len(),
    ensures
        r == space_len(t@, i as int, e as int),
        i + r <= e,
{
    if i >= e {
        return 0;
    }
    let b = t[i];
    if b == 0x20u8 || (0x09u8 <= b && b <= 0x0du8) {
        return 1;
    }
    if e - i >= 2 && b == 0xc2u8 && (t[i + 1] == 0x85u8 || t[i + 1] == 0xa0u8) {
        return 2;
    }
    if e - i >= 3 {
        let b1 = t[i + 1];
        let b2 = t[i + 2];
        if (b == 0xe1u8 && b1 == 0x9au8 && b2 == 0x80u8) || (b == 0xe2u8 && b1 == 0x80u8 && ((
        0x80u8 <= b2 && b2 <= 0x8au8) || b2 == 0xa8u8 || b2 == 0xa9u8 || b2 == 0xafu8)) || (b
            == 0xe2u8 && b1 == 0x81u8 && b2 == 0x9fu8) || (b == 0xe3u8 && b1 == 0x80u8 && b2
            == 0x80u8) {
            return 3;
        }
    }
    0
}

fn find_skip_space(t: &[u8], i: usize, e: usize) -> (r: usize)
    requires
        i <= e <= t@.len(),
    ensures
        r == skip_space(t@, i as int, e as int),
        i <= r <= e,
{
    let mut j: usize = i;
    while j < e && space_len_at(t, j, e) > 0
        invariant
            i <= j <= e <= t@.len(),
            skip_space(t@, j as int, e as int) == skip_space(t@, i as int, e as int),
        decreases e - j,
    {
        j = j + space_len_at(t, j, e);
    }
    j
}

fn find_token_end(t: &[u8], i: usize, e: usize) -> (r: usize)
    requires
        i <= e <= t@.len(),
    ensures
        r == token_end(t@, i as int, e as int),
        i <= r <= e,
{
    let mut j: usize = i;
    while j < e && space_len_at(t, j, e) == 0
        invariant
            i <= j <= e <= t@.len(),
            token_end(t@, j as int, e as int) == token_end(t@, i as int, e as int),
        decreases e - j,
    {
        j = j + 1;
    }
    j
}

/// Reads `t[lo..hi]` as an unsigned decimal number, as `u64`'s `from_str` does.
pub fn parse_decimal_u64(t: &[u8], lo: usize, hi: usize) -> (r: Option<u64>)
    requires
        lo <= hi <= t@.len(),
    ensures
        r == decimal_u64(t@, lo as int, hi as int),
{
    let start: usize = if lo < hi && t[lo] == 0x2bu8 { lo + 1 } else { lo };
    if start >= hi {
        return None;
    }
    let mut v: u64 = 0;
    let mut i: usize = start;
    while i < hi
        invariant
            lo <= start <= i <= hi <= t@.len(),
            start < hi,
            start as int == (if lo < hi && t@[lo as int] == 0x2bu8 { lo + 1 } else { lo as int }),
            all_digits(t@, start as int, i as int),
            v == digits_value(t@, start as int, i as int),
        decreases hi - i,
    {
        let b = t[i];
        if b < 0x30u8 || b > 0x39u8 {
            return None;
        }
        let d: u64 = (b - 0x30u8) as u64;
        if v > (u64::MAX - d) / 10 {
            proof {
                if all_digits(t@, start as int, hi as int) {
                    lemma_digits_value_monotone(t@, start as int, i + 1, hi as int);
                }
            }
            return None;
        }
        v = v * 10 + d;
        i = i + 1;
    }
    Some(v)
}

/// The resident-memory figure, in kB, of a process status text: the number after
/// `VmRSS:` on the first line that begins so and has a second field; 0 where that
/// field is no number or where no such line exists.
pub fn parse_vm_rss(status: &[u8]) -> (r: u64)
    ensures
        r == vm_rss_kb(status@),
{
    let n = status.len();
    let mut s: usize = 0;
    while s < n
        invariant
            n == status@.len(),
            s <= n,
            rss_from(status@, s as int) == rss_from(status@, 0),
        decreases n - s,
    {
        let e = find_line_end(status, s);
        proof {
            lemma_line_end_bounds(status@, s as int);
        }
        let a = find_skip_space(status, s, e);
        let b = find_token_end(status, a, e);
        let c = find_skip_space(status, b, e);
        let keyed = e - s >= 6 && status[s] == 0x56u8 && status[s + 1] == 0x6du8
            && status[s + 2] == 0x52u8 && status[s + 3] == 0x53u8 && status[s + 4] == 0x53u8
            && status[s + 5] == 0x3au8;
        if keyed && c < e {
            let d = find_token_end(status, c, e);
            return match parse_decimal_u64(status, c, d) {
                Some(v) => v,
                None => 0,
            };
        }
        if e >= n {
            return 0;
        }
        s = e + 1;
    }
    0
}

} // verus!
