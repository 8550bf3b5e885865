//! Scanners for the JSON fragments that the wire protocol uses: whitespace,
//! strings with escapes, arrays of strings, unsigned integers, and number
//! tokens. Each scanner has a specification function over `Seq<char>` giving
//! the scanned value and the count of characters consumed, and an executable
//! twin proved to return exactly that.

use crate::text::{all_digits, dec_val, is_digit};
use vstd::prelude::*;

verus! {

/// Whether `c` is JSON whitespace.
pub open spec fn is_ws(c: char) -> bool {
    c == ' ' || c == '\t' || c == '\n' || c == '\r'
}

/// The number of whitespace chars at `i`.
pub open spec fn ws_run(s: Seq<char>, i: int) -> nat
    decreases s.len() - i,
{
    if 0 <= i < s.len() && is_ws(s[i]) {
        1 + ws_run(s, i + 1)
    } else {
        0
    }
}

/// The number of decimal digits at `i`.
pub open spec fn digit_run(s: Seq<char>, i: int) -> nat
    decreases s.len() - i,
{
    if 0 <= i < s.len() && is_digit(s[i]) {
        1 + digit_run(s, i + 1)
    } else {
        0
    }
}

/// A whitespace run ends at the first non-whitespace char.
pub proof fn lemma_ws_run_eq(s: Seq<char>, i: int, j: int)
    requires
        0 <= i <= j <= s.len(),
        forall|k: int| i <= k < j ==> is_ws(s[k]),
        j < s.len() ==> !is_ws(s[j]),
    ensures
        ws_run(s, i) == j - i,
    decreases j - i,
{
    if i < j {
        lemma_ws_run_eq(s, i + 1, j);
    }
}

/// A digit run ends at the first non-digit char.
pub proof fn lemma_digit_run_eq(s: Seq<char>, i: int, j: int)
    requires
        0 <= i <= j <= s.len(),
        forall|k: int| i <= k < j ==> is_digit(s[k]),
        j < s.len() ==> !is_digit(s[j]),
    ensures
        digit_run(s, i) == j - i,
    decreases j - i,
{
    if i < j {
        lemma_digit_run_eq(s, i + 1, j);
    }
}

/// Advances past whitespace, returning the first index at or after `i` that
/// holds none.
pub fn skip_ws(s: &Vec<char>, i: usize) -> (j: usize)
    requires
        i <= s@.len(),
    ensures
        j == i + ws_run(s@, i as int),
        i <= j <= s@.len(),
{
    let mut j = i;
    while j < s.len() && is_ws_exec(s[j])
        invariant
            i <= j <= s@.len(),
            forall|k: int| i <= k < j ==> is_ws(s@[k]),
        decreases s@.len() - j,
    {
        j = j + 1;
    }
    proof {
        lemma_ws_run_eq(s@, i as int, j as int);
    }
    j
}

fn is_ws_exec(c: char) -> (r: bool)
    ensures
        r == is_ws(c),
{
    c == ' ' || c == '\t' || c == '\n' || c == '\r'
}

fn is_digit_exec(c: char) -> (r: bool)
    ensures
        r == is_digit(c),
{
    let u = c as u32;
    48 <= u && u <= 57
}

/// The value of a hex digit, if `c` is one.
pub open spec fn hex_val(c: char) -> Option<u32> {
    let u = c as u32;
    if 48 <= u && u <= 57 {
        Some((u - 48) as u32)
    } else if 97 <= u && u <= 102 {
        Some((u - 87) as u32)
    } else if 65 <= u && u <= 70 {
        Some((u - 55) as u32)
    } else {
        None
    }
}

fn hex_val_exec(c: char) -> (r: Option<u32>)
    ensures
        r == hex_val(c),
{
    let u = c as u32;
    if 48 <= u && u <= 57 {
        Some(u - 48)
    } else if 97 <= u && u <= 102 {
        Some(u - 87)
    } else if 65 <= u && u <= 70 {
        Some(u - 55)
    } else {
        None
    }
}

/// The four-digit hex value at `i`, if all four chars are hex digits.
pub open spec fn hex4(s: Seq<char>, i: int) -> Option<u32> {
    if 0 <= i && i + 4 <= s.len() {
        match (hex_val(s[i]), hex_val(s[i + 1]), hex_val(s[i + 2]), hex_val(s[i + 3])) {
            (Some(h3), Some(h2), Some(h1), Some(h0)) => Some(
                (h3 * 4096 + h2 * 256 + h1 * 16 + h0) as u32,
            ),
            _ => None,
        }
    } else {
        None
    }
}

fn hex4_exec(s: &Vec<char>, i: usize) -> (r: Option<u32>)
    requires
        i + 4 <= s@.len(),
    ensures
        r == hex4(s@, i as int),
        r matches Some(n) ==> n < 0x10000,
{
    // binds the vector length as a usize, bounding the index arithmetic
    let slen = s.len();
    let h3 = hex_val_exec(s[i]);
    let h2 = hex_val_exec(s[i + 1]);
    let h1 = hex_val_exec(s[i + 2]);
    let h0 = hex_val_exec(s[i + 3]);
    match (h3, h2, h1, h0) {
        (Some(h3), Some(h2), Some(h1), Some(h0)) => Some(h3 * 4096 + h2 * 256 + h1 * 16 + h0),
        _ => None,
    }
}

/// The body of a JSON string starting at `i` (just after the opening quote):
/// the decoded content and the chars consumed, including the closing quote.
/// Escapes are the standard single-char escapes and `\u` with surrogate
/// pairs; raw control characters end the scan with `None`.
pub open spec fn scan_str_body(s: Seq<char>, i: int) -> Option<(Seq<char>, nat)>
    decreases s.len() - i,
{
    if !(0 <= i < s.len()) {
        None
    } else {
        let c = s[i];
        if c == '"' {
            Some((Seq::<char>::empty(), 1nat))
        } else if c == '\\' {
            if !(i + 1 < s.len()) {
                None
            } else {
                let e = s[i + 1];
                if e == 'u' {
                    if !(i + 6 <= s.len()) {
                        None
                    } else {
                        match hex4(s, i + 2) {
                            Some(n) => {
                                if n < 0xD800 || n > 0xDFFF {
                                    match scan_str_body(s, i + 6) {
                                        Some((cs, m)) => Some(
                                            (seq![n as char] + cs, (6 + m) as nat),
                                        ),
                                        None => None,
                                    }
                                } else if n < 0xDC00 {
                                    if !(i + 12 <= s.len() && s[i + 6] == '\\' && s[i + 7]
                                        == 'u') {
                                        None
                                    } else {
                                        match hex4(s, i + 8) {
                                            Some(n2) => {
                                                if 0xDC00 <= n2 && n2 <= 0xDFFF {
                                                    let cp = (0x10000 + (n - 0xD800) * 0x400 + (
                                                    n2 - 0xDC00)) as u32;
                                                    match scan_str_body(s, i + 12) {
                                                        Some((cs, m)) => Some(
                                                            (seq![cp as char] + cs, (12
                                                                + m) as nat),
                                                        ),
                                                        None => None,
                                                    }
                                                } else {
                                                    None
                                                }
                                            },
                                            None => None,
                                        }
                                    }
                                } else {
                                    None
                                }
                            },
                            None => None,
                        }
                    }
                } else {
                    match simple_escape(e) {
                        Some(d) => match scan_str_body(s, i + 2) {
                            Some((cs, m)) => Some((seq![d] + cs, (2 + m) as nat)),
                            None => None,
                        },
                        None => None,
                    }
                }
            }
        } else if (c as u32) < 0x20 {
            None
        } else {
            match scan_str_body(s, i + 1) {
                Some((cs, m)) => Some((seq![c] + cs, (1 + m) as nat)),
                None => None,
            }
        }
    }
}

/// The char a single-letter escape stands for.
pub open spec fn simple_escape(e: char) -> Option<char> {
    if e == '"' {
        Some('"')
    } else if e == '\\' {
        Some('\\')
    } else if e == '/' {
        Some('/')
    } else if e == 'b' {
        Some('\u{8}')
    } else if e == 'f' {
        Some('\u{c}')
    } else if e == 'n' {
        Some('\n')
    } else if e == 'r' {
        Some('\r')
    } else if e == 't' {
        Some('\t')
    } else {
        None
    }
}

fn simple_escape_exec(e: char) -> (r: Option<char>)
    ensures
        r == simple_escape(e),
{
    if e == '"' {
        Some('"')
    } else if e == '\\' {
        Some('\\')
    } else if e == '/' {
        Some('/')
    } else if e == 'b' {
        Some('\u{8}')
    } else if e == 'f' {
        Some('\u{c}')
    } else if e == 'n' {
        Some('\n')
    } else if e == 'r' {
        Some('\r')
    } else if e == 't' {
        Some('\t')
    } else {
        None
    }
}

/// Scans a string body, mirroring [`scan_str_body`].
pub fn scan_str_body_exec(s: &Vec<char>, i: usize) -> (r: Option<(Vec<char>, usize)>)
    requires
        i <= s@.len(),
    ensures
        match r {
            Some(p) => scan_str_body(s@, i as int) == Some((p.0@, p.1 as nat)) && i + p.1
                <= s@.len(),
            None => scan_str_body(s@, i as int) is None,
        },
    decreases s@.len() - i,
{
    let slen = s.len();
    if i >= slen {
        return None;
    }
    let c = s[i];
    if c == '"' {
        return Some((Vec::new(), 1));
    }
    if c == '\\' {
        if slen - i < 2 {
            return None;
        }
        let e = s[i + 1];
        if e == 'u' {
            if slen - i < 6 {
                return None;
            }
            let n = match hex4_exec(s, i + 2) {
                Some(n) => n,
                None => {
                    return None;
                },
            };
            if n < 0xD800 || n > 0xDFFF {
                let c0 = match crate::text::char_from_u32(n) {
                    Some(c0) => c0,
                    None => {
                        // unreachable: n is below the surrogate range or a
                        // BMP scalar above it
                        return None;
                    },
                };
                proof {
                    vstd::utf8::char_u32_cast(c0, n);
                }
                match scan_str_body_exec(s, i + 6) {
                    Some((cs, m)) => {
                        let ghost csv = cs@;
                        let mut v = cs;
                        v.insert(0, c0);
                        assert(v@ =~= seq![n as char] + csv);
                        return Some((v, 6 + m));
                    },
                    None => {
                        return None;
                    },
                }
            } else if n < 0xDC00 {
                if slen - i < 12 {
                    return None;
                }
                if !(s[i + 6] == '\\' && s[i + 7] == 'u') {
                    return None;
                }
                let n2 = match hex4_exec(s, i + 8) {
                    Some(n2) => n2,
                    None => {
                        return None;
                    },
                };
                if 0xDC00 <= n2 && n2 <= 0xDFFF {
                    let cp = 0x10000 + (n - 0xD800) * 0x400 + (n2 - 0xDC00);
                    let c0 = match crate::text::char_from_u32(cp) {
                        Some(c0) => c0,
                        None => {
                            // unreachable: a surrogate pair encodes a scalar
                            // between 0x10000 and 0x10FFFF
                            return None;
                        },
                    };
                    proof {
                        vstd::utf8::char_u32_cast(c0, cp);
                    }
                    match scan_str_body_exec(s, i + 12) {
                        Some((cs, m)) => {
                            let ghost csv = cs@;
                            let mut v = cs;
                            v.insert(0, c0);
                            assert(v@ =~= seq![cp as char] + csv);
                            return Some((v, 12 + m));
                        },
                        None => {
                            return None;
                        },
                    }
                } else {
                    return None;
                }
            } else {
                return None;
            }
        }
        let d = match simple_escape_exec(e) {
            Some(d) => d,
            None => {
                return None;
            },
        };
        match scan_str_body_exec(s, i + 2) {
            Some((cs, m)) => {
                let ghost csv = cs@;
                let mut v = cs;
                v.insert(0, d);
                assert(v@ =~= seq![d] + csv);
                return Some((v, 2 + m));
            },
            None => {
                return None;
            },
        }
    }
    if (c as u32) < 0x20 {
        return None;
    }
    match scan_str_body_exec(s, i + 1) {
        Some((cs, m)) => {
            let ghost csv = cs@;
            let mut v = cs;
            v.insert(0, c);
            assert(v@ =~= seq![c] + csv);
            Some((v, 1 + m))
        },
        None => None,
    }
}

/// A whole JSON string at `i`: the opening quote, the body, the closing
/// quote.
pub open spec fn scan_string(s: Seq<char>, i: int) -> Option<(Seq<char>, nat)> {
    if 0 <= i < s.len() && s[i] == '"' {
        match scan_str_body(s, i + 1) {
            Some((cs, m)) => Some((cs, (1 + m) as nat)),
            None => None,
        }
    } else {
        None
    }
}

/// Scans a whole JSON string, mirroring [`scan_string`].
pub fn scan_string_exec(s: &Vec<char>, i: usize) -> (r: Option<(Vec<char>, usize)>)
    requires
        i <= s@.len(),
    ensures
        match r {
            Some(p) => scan_string(s@, i as int) == Some((p.0@, p.1 as nat)) && i + p.1
                <= s@.len(),
            None => scan_string(s@, i as int) is None,
        },
{
    if i < s.len() && s[i] == '"' {
        match scan_str_body_exec(s, i + 1) {
            Some((cs, m)) => Some((cs, 1 + m)),
            None => None,
        }
    } else {
        None
    }
}

/// An array of JSON strings at `i`: the values and the chars consumed,
/// including the closing bracket.
pub open spec fn scan_str_array(s: Seq<char>, i: int) -> Option<(Seq<Seq<char>>, nat)> {
    if 0 <= i < s.len() && s[i] == '[' {
        let w = ws_run(s, i + 1);
        let j = i + 1 + w;
        if j < s.len() && s[j] == ']' {
            Some((Seq::<Seq<char>>::empty(), (1 + w + 1) as nat))
        } else {
            match scan_str_items(s, i + 1) {
                Some((vs, m)) => Some((vs, (1 + m) as nat)),
                None => None,
            }
        }
    } else {
        None
    }
}

/// One or more comma-separated JSON strings from `i` through the closing
/// bracket.
pub open spec fn scan_str_items(s: Seq<char>, i: int) -> Option<(Seq<Seq<char>>, nat)>
    decreases s.len() - i,
{
    if !(0 <= i <= s.len()) {
        None
    } else {
        let w = ws_run(s, i);
        let j = i + w;
        match scan_string(s, j) {
            Some((v, n)) => {
                let w2 = ws_run(s, j + n);
                let k = j + n + w2;
                if !(k < s.len()) {
                    None
                } else if s[k] == ',' {
                    match scan_str_items(s, k + 1) {
                        Some((vs, m)) => Some((seq![v] + vs, (w + n + w2 + 1 + m) as nat)),
                        None => None,
                    }
                } else if s[k] == ']' {
                    Some((seq![v], (w + n + w2 + 1) as nat))
                } else {
                    None
                }
            },
            None => None,
        }
    }
}

/// Scans comma-separated strings, mirroring [`scan_str_items`].
pub fn scan_str_items_exec(s: &Vec<char>, i: usize) -> (r: Option<(Vec<String>, usize)>)
    requires
        i <= s@.len(),
    ensures
        match r {
            Some(p) => scan_str_items(s@, i as int) == Some((p.0.deep_view(), p.1 as nat)) && i
                + p.1 <= s@.len(),
            None => scan_str_items(s@, i as int) is None,
        },
    decreases s@.len() - i,
{
    let slen = s.len();
    let j = skip_ws(s, i);
    let (v, n) = match scan_string_exec(s, j) {
        Some(p) => p,
        None => {
            return None;
        },
    };
    let vstr = crate::text::string_from_chars(&v);
    let k = skip_ws(s, j + n);
    if k >= s.len() {
        return None;
    }
    if s[k] == ',' {
        match scan_str_items_exec(s, k + 1) {
            Some((vs, m)) => {
                let ghost vsdv = vs.deep_view();
                let mut out = vs;
                out.insert(0, vstr);
                proof {
                    assert(out.deep_view() =~~= seq![v@] + vsdv);
                }
                Some((out, k + 1 + m - i))
            },
            None => None,
        }
    } else if s[k] == ']' {
        let mut out: Vec<String> = Vec::new();
        out.push(vstr);
        proof {
            assert(out.deep_view() =~~= seq![v@]);
        }
        Some((out, k + 1 - i))
    } else {
        None
    }
}

/// Scans a string array, mirroring [`scan_str_array`].
pub fn scan_str_array_exec(s: &Vec<char>, i: usize) -> (r: Option<(Vec<String>, usize)>)
    requires
        i <= s@.len(),
    ensures
        match r {
            Some(p) => scan_str_array(s@, i as int) == Some((p.0.deep_view(), p.1 as nat)) && i
                + p.1 <= s@.len(),
            None => scan_str_array(s@, i as int) is None,
        },
{
    if i < s.len() && s[i] == '[' {
        let j = skip_ws(s, i + 1);
        if j < s.len() && s[j] == ']' {
            let out: Vec<String> = Vec::new();
            proof {
                assert(out.deep_view() =~~= Seq::<Seq<char>>::empty());
            }
            Some((out, j + 1 - i))
        } else {
            match scan_str_items_exec(s, i + 1) {
                Some((vs, m)) => Some((vs, 1 + m)),
                None => None,
            }
        }
    } else {
        None
    }
}

/// An unsigned integer at `i`, read as serde reads a `u64` field: one or
/// more digits, no leading zero, not followed by a fraction or exponent, and
/// a value that fits in a `u64`.
pub open spec fn scan_u64(s: Seq<char>, i: int) -> Option<(u64, nat)> {
    let d = digit_run(s, i);
    if d == 0 {
        None
    } else if s[i] == '0' && d > 1 {
        None
    } else {
        let j = i + d;
        if j < s.len() && (s[j] == '.' || s[j] == 'e' || s[j] == 'E') {
            None
        } else {
            let val = dec_val(s.subrange(i, j));
            if val <= u64::MAX {
                Some((val as u64, d))
            } else {
                None
            }
        }
    }
}

/// Scans an unsigned integer, mirroring [`scan_u64`].
pub fn scan_u64_exec(s: &Vec<char>, i: usize) -> (r: Option<(u64, usize)>)
    requires
        i <= s@.len(),
    ensures
        match r {
            Some(p) => scan_u64(s@, i as int) == Some((p.0, p.1 as nat)) && i + p.1 <= s@.len(),
            None => scan_u64(s@, i as int) is None,
        },
{
    let mut j = i;
    while j < s.len() && is_digit_exec(s[j])
        invariant
            i <= j <= s@.len(),
            forall|k: int| i <= k < j ==> is_digit(s@[k]),
        decreases s@.len() - j,
    {
        j = j + 1;
    }
    proof {
        lemma_digit_run_eq(s@, i as int, j as int);
    }
    if j == i {
        return None;
    }
    if s[i] == '0' && j - i > 1 {
        return None;
    }
    if j < s.len() && (s[j] == '.' || s[j] == 'e' || s[j] == 'E') {
        return None;
    }
    let mut digits: Vec<char> = Vec::new();
    let mut k = i;
    while k < j
        invariant
            i <= k <= j <= s@.len(),
            digits@ == s@.subrange(i as int, k as int),
        decreases j - k,
    {
        digits.push(s[k]);
        assert(digits@ =~= s@.subrange(i as int, k + 1 as int));
        k = k + 1;
    }
    match crate::text::parse_u64_digits(&digits) {
        Some(n) => Some((n, j - i)),
        None => {
            proof {
                assert(all_digits(digits@));
            }
            None
        },
    }
}

/// A JSON number token at `i`: the token text and its length. The grammar is
/// JSON's: an optional minus, an integer part with no leading zero, an
/// optional fraction, an optional exponent.
pub open spec fn scan_number(s: Seq<char>, i: int) -> Option<(Seq<char>, nat)> {
    if !(0 <= i < s.len()) {
        None
    } else {
        let j = if s[i] == '-' {
            i + 1
        } else {
            i
        };
        let d1 = digit_run(s, j);
        if d1 == 0 {
            None
        } else if s[j] == '0' && d1 > 1 {
            None
        } else {
            let k = j + d1;
            let k2 = if k < s.len() && s[k] == '.' {
                let d2 = digit_run(s, k + 1);
                if d2 == 0 {
                    i - 1  // poison: makes the scan fail below
                } else {
                    k + 1 + d2
                }
            } else {
                k
            };
            if k2 < i {
                None
            } else {
                let k3 = if k2 < s.len() && (s[k2] == 'e' || s[k2] == 'E') {
                    let e0 = if k2 + 1 < s.len() && (s[k2 + 1] == '+' || s[k2 + 1] == '-') {
                        k2 + 2
                    } else {
                        k2 + 1
                    };
                    let d3 = digit_run(s, e0);
                    if d3 == 0 {
                        i - 1  // poison: makes the scan fail below
                    } else {
                        e0 + d3
                    }
                } else {
                    k2
                };
                if k3 < i {
                    None
                } else {
                    Some((s.subrange(i, k3), (k3 - i) as nat))
                }
            }
        }
    }
}

/// Scans a number token, mirroring [`scan_number`].
pub fn scan_number_exec(s: &Vec<char>, i: usize) -> (r: Option<(Vec<char>, usize)>)
    requires
        i <= s@.len(),
    ensures
        match r {
            Some(p) => scan_number(s@, i as int) == Some((p.0@, p.1 as nat)) && i + p.1
                <= s@.len() && p.1 > 0,
            None => scan_number(s@, i as int) is None,
        },
{
    if i >= s.len() {
        return None;
    }
    let j: usize = if s[i] == '-' {
        i + 1
    } else {
        i
    };
    let d1 = digit_run_exec(s, j);
    if d1 == 0 {
        return None;
    }
    if s[j] == '0' && d1 > 1 {
        return None;
    }
    let k = j + d1;
    let k2: usize = if k < s.len() && s[k] == '.' {
        let d2 = digit_run_exec(s, k + 1);
        if d2 == 0 {
            return None;
        }
        k + 1 + d2
    } else {
        k
    };
    let k3: usize = if k2 < s.len() && (s[k2] == 'e' || s[k2] == 'E') {
        let e0: usize = if k2 + 1 < s.len() && (s[k2 + 1] == '+' || s[k2 + 1] == '-') {
            k2 + 2
        } else {
            k2 + 1
        };
        let d3 = digit_run_exec(s, e0);
        if d3 == 0 {
            return None;
        }
        e0 + d3
    } else {
        k2
    };
    let mut tok: Vec<char> = Vec::new();
    let mut t = i;
    while t < k3
        invariant
            i <= t <= k3 <= s@.len(),
            tok@ == s@.subrange(i as int, t as int),
        decreases k3 - t,
    {
        tok.push(s[t]);
        assert(tok@ =~= s@.subrange(i as int, t + 1 as int));
        t = t + 1;
    }
    Some((tok, k3 - i))
}

/// Advances past the digit run at `i`, returning its length.
fn digit_run_exec(s: &Vec<char>, i: usize) -> (d: usize)
    requires
        i <= s@.len(),
    ensures
        d == digit_run(s@, i as int),
        i + d <= s@.len(),
{
    let mut j = i;
    while j < s.len() && is_digit_exec(s[j])
        invariant
            i <= j <= s@.len(),
            forall|k: int| i <= k < j ==> is_digit(s@[k]),
        decreases s@.len() - j,
    {
        j = j + 1;
    }
    proof {
        lemma_digit_run_eq(s@, i as int, j as int);
    }
    j - i
}

} // verus!
