//! Character-level text helpers: conversions between `&str`, `Vec<char>` and
//! `String`, decimal numerals, and splitting/joining on a separator char.
//!
//! All protocol parsing in this crate works over `Vec<char>` so that every
//! step is specified against the `Seq<char>` view of the input.

use vstd::prelude::*;
use vstd::string::StrSliceExecFns;

verus! {

/// Collects the characters of a string slice.
pub fn str_to_chars(s: &str) -> (r: Vec<char>)
    ensures
        r@ == s@,
{
    let n = s.unicode_len();
    let mut r: Vec<char> = Vec::new();
    let mut i: usize = 0;
    while i < n
        invariant
            n == s@.len(),
            i <= n,
            r@ == s@.subrange(0, i as int),
        decreases n - i,
    {
        r.push(s.get_char(i));
        assert(r@ =~= s@.subrange(0, i + 1 as int));
        i = i + 1;
    }
    assert(r@ =~= s@);
    r
}

/// Relies on `String`'s `FromIterator<char>` impl: collecting chars yields the
/// string with exactly those chars in order.
#[verifier::external_body]
pub fn string_from_chars(v: &Vec<char>) -> (r: String)
    ensures
        r@ == v@,
{
    v.iter().collect()
}

/// Relies on `char::from_u32`: returns `Some` exactly for Unicode scalar
/// values (not a surrogate, at most 0x10FFFF), and then returns that value.
#[verifier::external_body]
pub fn char_from_u32(n: u32) -> (r: Option<char>)
    ensures
        r matches Some(c) ==> c as u32 == n,
        r is Some <==> (n < 0xD800 || (0xE000 <= n && n <= 0x10FFFF)),
{
    char::from_u32(n)
}

/// Character-wise string equality.
pub fn str_eq(a: &str, b: &str) -> (r: bool)
    ensures
        r == (a@ == b@),
{
    let na = a.unicode_len();
    let nb = b.unicode_len();
    if na != nb {
        assert(a@ != b@);
        return false;
    }
    let mut i: usize = 0;
    while i < na
        invariant
            na == a@.len(),
            na == b@.len(),
            i <= na,
            forall|j: int| 0 <= j < i ==> a@[j] == b@[j],
        decreases na - i,
    {
        if a.get_char(i) != b.get_char(i) {
            assert(a@ != b@);
            return false;
        }
        i = i + 1;
    }
    assert(a@ =~= b@);
    true
}

/// Character-wise equality of a char vector and a string slice.
pub fn chars_eq_str(v: &Vec<char>, s: &str) -> (r: bool)
    ensures
        r == (v@ == s@),
{
    let n = s.unicode_len();
    if v.len() != n {
        assert(v@ != s@);
        return false;
    }
    let mut i: usize = 0;
    while i < n
        invariant
            n == s@.len(),
            v@.len() == n,
            i <= n,
            forall|j: int| 0 <= j < i ==> v@[j] == s@[j],
        decreases n - i,
    {
        if v[i] != s.get_char(i) {
            assert(v@ != s@);
            return false;
        }
        i = i + 1;
    }
    assert(v@ =~= s@);
    true
}

/// Character-wise equality of two char vectors.
pub fn chars_eq(a: &Vec<char>, b: &Vec<char>) -> (r: bool)
    ensures
        r == (a@ == b@),
{
    let n = a.len();
    if b.len() != n {
        assert(a@ != b@);
        return false;
    }
    let mut i: usize = 0;
    while i < n
        invariant
            i <= n,
            n == a@.len(),
            n == b@.len(),
            forall|j: int| 0 <= j < i ==> a@[j] == b@[j],
        decreases n - i,
    {
        if a[i] != b[i] {
            assert(a@ != b@);
            return false;
        }
        i = i + 1;
    }
    assert(a@ =~= b@);
    true
}

// ---------------------------------------------------------------------------
// Decimal numerals
// ---------------------------------------------------------------------------

/// Whether `c` is an ASCII decimal digit.
pub open spec fn is_digit(c: char) -> bool {
    48 <= c as u32 && c as u32 <= 57
}

/// The numeric value of an ASCII decimal digit.
pub open spec fn digit_val(c: char) -> nat {
    (c as u32 - 48) as nat
}

/// Whether every character of `s` is an ASCII decimal digit.
pub open spec fn all_digits(s: Seq<char>) -> bool {
    forall|i: int| 0 <= i < s.len() ==> is_digit(s[i])
}

/// The value of a digit string read as a base-10 numeral.
pub open spec fn dec_val(s: Seq<char>) -> nat
    decreases s.len(),
{
    if s.len() == 0 {
        0
    } else {
        dec_val(s.drop_last()) * 10 + digit_val(s.last())
    }
}

/// The digit character for a value below ten.
pub open spec fn dec_digit(n: nat) -> char {
    if n == 0 {
        '0'
    } else if n == 1 {
        '1'
    } else if n == 2 {
        '2'
    } else if n == 3 {
        '3'
    } else if n == 4 {
        '4'
    } else if n == 5 {
        '5'
    } else if n == 6 {
        '6'
    } else if n == 7 {
        '7'
    } else if n == 8 {
        '8'
    } else {
        '9'
    }
}

/// The shortest base-10 numeral for `n` (no leading zeros except for 0).
pub open spec fn dec_str(n: nat) -> Seq<char>
    decreases n,
{
    if n < 10 {
        seq![dec_digit(n)]
    } else {
        dec_str(n / 10) + seq![dec_digit(n % 10)]
    }
}

fn dec_digit_exec(n: u64) -> (r: char)
    requires
        n < 10,
    ensures
        r == dec_digit(n as nat),
{
    if n == 0 {
        '0'
    } else if n == 1 {
        '1'
    } else if n == 2 {
        '2'
    } else if n == 3 {
        '3'
    } else if n == 4 {
        '4'
    } else if n == 5 {
        '5'
    } else if n == 6 {
        '6'
    } else if n == 7 {
        '7'
    } else if n == 8 {
        '8'
    } else {
        '9'
    }
}

/// The decimal numeral of `n`, as chars.
pub fn dec_u64_chars(n: u64) -> (r: Vec<char>)
    ensures
        r@ == dec_str(n as nat),
    decreases n,
{
    if n < 10 {
        let mut r: Vec<char> = Vec::new();
        r.push(dec_digit_exec(n));
        assert(r@ =~= dec_str(n as nat));
        r
    } else {
        let mut r = dec_u64_chars(n / 10);
        r.push(dec_digit_exec(n % 10));
        assert(r@ =~= dec_str(n as nat));
        r
    }
}

/// A digit prefix never exceeds the value of the whole digit string.
pub proof fn lemma_dec_val_prefix(s: Seq<char>, i: int)
    requires
        0 <= i <= s.len(),
    ensures
        dec_val(s.take(i)) <= dec_val(s),
    decreases s.len() - i,
{
    if i < s.len() {
        lemma_dec_val_prefix(s, i + 1);
        assert(s.take(i + 1).drop_last() =~= s.take(i));
        assert(s.take(i + 1).last() == s[i]);
        assert(dec_val(s.take(i)) <= dec_val(s.take(i + 1)));
    } else {
        assert(s.take(i) =~= s);
    }
}

/// Reads `v` as a base-10 numeral: `Some` exactly when `v` is a nonempty
/// digit string whose value fits in a `u64`.
pub fn parse_u64_digits(v: &Vec<char>) -> (r: Option<u64>)
    ensures
        r matches Some(n) ==> v@.len() > 0 && all_digits(v@) && n == dec_val(v@),
        r is None ==> v@.len() == 0 || !all_digits(v@) || dec_val(v@) > u64::MAX,
{
    if v.len() == 0 {
        return None;
    }
    let mut acc: u64 = 0;
    let mut i: usize = 0;
    while i < v.len()
        invariant
            i <= v@.len(),
            all_digits(v@.take(i as int)),
            acc == dec_val(v@.take(i as int)),
        decreases v@.len() - i,
    {
        let c = v[i];
        let cu = c as u32;
        if cu < 48 || cu > 57 {
            assert(!is_digit(v@[i as int]));
            return None;
        }
        let d = (cu - 48) as u64;
        if acc > (u64::MAX - d) / 10 {
            proof {
                assert(v@.take(i + 1).drop_last() =~= v@.take(i as int));
                assert(dec_val(v@.take(i + 1)) == acc * 10 + d);
                assert(dec_val(v@.take(i + 1)) > u64::MAX);
                lemma_dec_val_prefix(v@, i + 1);
            }
            return None;
        }
        assert(acc * 10 + d <= u64::MAX) by (nonlinear_arith)
            requires
                acc <= (u64::MAX - d) / 10,
                d <= 9,
        ;
        acc = acc * 10 + d;
        proof {
            assert(v@.take(i + 1).drop_last() =~= v@.take(i as int));
        }
        i = i + 1;
    }
    proof {
        assert(v@.take(v@.len() as int) =~= v@);
    }
    Some(acc)
}

/// The value of `s` read as `u64::from_str` reads it: an optional leading
/// `+`, then at least one digit, and a value that fits.
pub open spec fn spec_parse_u64(s: Seq<char>) -> Option<u64> {
    let d = if s.len() > 0 && s[0] == '+' {
        s.drop_first()
    } else {
        s
    };
    if d.len() > 0 && all_digits(d) && dec_val(d) <= u64::MAX {
        Some(dec_val(d) as u64)
    } else {
        None
    }
}

/// The value of `s` read as `u32::from_str` reads it.
pub open spec fn spec_parse_u32(s: Seq<char>) -> Option<u32> {
    let d = if s.len() > 0 && s[0] == '+' {
        s.drop_first()
    } else {
        s
    };
    if d.len() > 0 && all_digits(d) && dec_val(d) <= u32::MAX {
        Some(dec_val(d) as u32)
    } else {
        None
    }
}

/// Reads a `u64` numeral with an optional leading `+`.
pub fn parse_u64_str(v: &Vec<char>) -> (r: Option<u64>)
    ensures
        r == spec_parse_u64(v@),
{
    let mut digits: Vec<char> = Vec::new();
    let start: usize = if v.len() > 0 && v[0] == '+' {
        1
    } else {
        0
    };
    let mut i = start;
    while i < v.len()
        invariant
            start <= i <= v@.len(),
            digits@ == v@.subrange(start as int, i as int),
        decreases v@.len() - i,
    {
        digits.push(v[i]);
        assert(digits@ =~= v@.subrange(start as int, i + 1 as int));
        i = i + 1;
    }
    proof {
        if start == 1 {
            assert(digits@ =~= v@.drop_first());
        } else {
            assert(digits@ =~= v@);
        }
    }
    parse_u64_digits(&digits)
}

/// Reads a `u32` numeral with an optional leading `+`.
pub fn parse_u32_str(v: &Vec<char>) -> (r: Option<u32>)
    ensures
        r == spec_parse_u32(v@),
{
    match parse_u64_str(v) {
        Some(n) => {
            if n <= 0xffff_ffff {
                Some(n as u32)
            } else {
                None
            }
        },
        None => None,
    }
}

// ---------------------------------------------------------------------------
// Splitting and joining on a separator character
// ---------------------------------------------------------------------------

/// The pieces of `s` between occurrences of `sep`, as `str::split` yields
/// them: always at least one piece, and empty pieces are kept.
pub open spec fn spec_split(s: Seq<char>, sep: char) -> Seq<Seq<char>>
    decreases s.len(),
{
    if s.len() == 0 {
        seq![Seq::<char>::empty()]
    } else if s[0] == sep {
        seq![Seq::<char>::empty()] + spec_split(s.drop_first(), sep)
    } else {
        let rest = spec_split(s.drop_first(), sep);
        seq![seq![s[0]] + rest[0]] + rest.drop_first()
    }
}

/// A split has at least one piece.
pub proof fn lemma_split_len(s: Seq<char>, sep: char)
    ensures
        spec_split(s, sep).len() >= 1,
    decreases s.len(),
{
    if s.len() != 0 {
        lemma_split_len(s.drop_first(), sep);
    }
}

/// Unfolds a split up to the first occurrence of the separator.
proof fn lemma_split_head(s: Seq<char>, sep: char, j: int)
    requires
        0 <= j <= s.len(),
        forall|k: int| 0 <= k < j ==> s[k] != sep,
        j < s.len() ==> s[j] == sep,
    ensures
        j == s.len() ==> spec_split(s, sep) == seq![s],
        j < s.len() ==> spec_split(s, sep) == seq![s.take(j)] + spec_split(
            s.skip(j + 1),
            sep,
        ),
    decreases j,
{
    lemma_split_len(s, sep);
    if j == 0 {
        if 0 < s.len() {
            assert(s.skip(1) =~= s.drop_first());
            assert(s.take(0) =~= Seq::<char>::empty());
        } else {
            assert(s =~= Seq::<char>::empty());
        }
    } else {
        let t = s.drop_first();
        lemma_split_head(t, sep, j - 1);
        lemma_split_len(t, sep);
        if j == s.len() {
            assert(spec_split(t, sep) == seq![t]);
            assert(spec_split(s, sep) == seq![seq![s[0]] + t] + spec_split(t, sep).drop_first());
            assert(seq![s[0]] + t =~= s);
            assert(spec_split(t, sep).drop_first() =~= Seq::<Seq<char>>::empty());
            assert(spec_split(s, sep) =~= seq![s]);
        } else {
            assert(spec_split(t, sep) == seq![t.take(j - 1)] + spec_split(t.skip(j), sep));
            assert(seq![s[0]] + t.take(j - 1) =~= s.take(j));
            assert(t.skip(j) =~= s.skip(j + 1));
            assert(spec_split(t, sep).drop_first() =~= spec_split(s.skip(j + 1), sep));
            assert(spec_split(s, sep) =~= seq![s.take(j)] + spec_split(s.skip(j + 1), sep));
        }
    }
}

/// Splits `v` on `sep`, keeping empty pieces, like `str::split`.
pub fn split_chars(v: &Vec<char>, sep: char) -> (r: Vec<Vec<char>>)
    ensures
        r.deep_view() == spec_split(v@, sep),
        r@.len() >= 1,
{
    let r = split_chars_from(v, 0, sep);
    proof {
        assert(v@.skip(0) =~= v@);
        lemma_split_len(v@, sep);
    }
    r
}

fn split_chars_from(v: &Vec<char>, i: usize, sep: char) -> (r: Vec<Vec<char>>)
    requires
        i <= v@.len(),
    ensures
        r.deep_view() == spec_split(v@.skip(i as int), sep),
    decreases v@.len() - i,
{
    let ghost s = v@.skip(i as int);
    let mut j = i;
    while j < v.len() && v[j] != sep
        invariant
            i <= j <= v@.len(),
            forall|k: int| i <= k < j ==> v@[k] != sep,
        decreases v@.len() - j,
    {
        j = j + 1;
    }
    let mut part: Vec<char> = Vec::new();
    let mut k = i;
    while k < j
        invariant
            i <= k <= j <= v@.len(),
            part@ == v@.subrange(i as int, k as int),
        decreases j - k,
    {
        part.push(v[k]);
        assert(part@ =~= v@.subrange(i as int, k + 1 as int));
        k = k + 1;
    }
    proof {
        assert(forall|t: int| 0 <= t < j - i ==> s[t] == v@[i + t]);
        lemma_split_head(s, sep, j - i);
        assert(part@ =~= s.take(j - i));
    }
    if j >= v.len() {
        let mut r: Vec<Vec<char>> = Vec::new();
        r.push(part);
        proof {
            assert(s.take(j - i) =~= s);
            assert(part@ =~= s);
            assert(r.deep_view() =~~= seq![s]);
        }
        r
    } else {
        let rest = split_chars_from(v, j + 1, sep);
        let ghost restdv = rest.deep_view();
        let mut r = rest;
        r.insert(0, part);
        proof {
            assert(v@.skip(j + 1 as int) =~= s.skip(j - i + 1));
            assert(restdv == spec_split(s.skip(j - i + 1), sep));
            assert(r.deep_view() =~~= seq![part@] + restdv);
            assert(r.deep_view() =~~= seq![s.take(j - i)] + spec_split(s.skip(j - i + 1), sep));
        }
        r
    }
}

/// The pieces joined with `sep` between them.
pub open spec fn spec_join(parts: Seq<Seq<char>>, sep: char) -> Seq<char>
    decreases parts.len(),
{
    if parts.len() == 0 {
        Seq::<char>::empty()
    } else if parts.len() == 1 {
        parts[0]
    } else {
        parts[0] + seq![sep] + spec_join(parts.drop_first(), sep)
    }
}

/// Joins `parts` with `sep` between them.
pub fn join_chars(parts: &Vec<Vec<char>>, sep: char) -> (r: Vec<char>)
    ensures
        r@ == spec_join(parts.deep_view(), sep),
{
    let r = join_chars_from(parts, 0, sep);
    proof {
        assert(parts.deep_view().skip(0) =~= parts.deep_view());
    }
    r
}

fn join_chars_from(parts: &Vec<Vec<char>>, i: usize, sep: char) -> (r: Vec<char>)
    requires
        i <= parts@.len(),
    ensures
        r@ == spec_join(parts.deep_view().skip(i as int), sep),
    decreases parts@.len() - i,
{
    let ghost ps = parts.deep_view().skip(i as int);
    if i >= parts.len() {
        let r: Vec<char> = Vec::new();
        assert(ps =~= Seq::<Seq<char>>::empty());
        r
    } else {
        let mut r: Vec<char> = Vec::new();
        let n = parts[i].len();
        let mut k: usize = 0;
        while k < n
            invariant
                k <= n,
                n == parts@[i as int]@.len(),
                i < parts@.len(),
                r@ == parts@[i as int]@.subrange(0, k as int),
            decreases n - k,
        {
            r.push(parts[i][k]);
            assert(r@ =~= parts@[i as int]@.subrange(0, k + 1 as int));
            k = k + 1;
        }
        proof {
            assert(r@ =~= parts@[i as int]@);
            assert(ps[0] == parts@[i as int]@);
        }
        if i + 1 >= parts.len() {
            proof {
                assert(ps.len() == 1);
                assert(r@ =~= spec_join(ps, sep));
            }
            r
        } else {
            r.push(sep);
            let rest = join_chars_from(parts, i + 1, sep);
            let mut out = r;
            let mut t: usize = 0;
            let m = rest.len();
            while t < m
                invariant
                    t <= m,
                    m == rest@.len(),
                    out@ == parts@[i as int]@ + seq![sep] + rest@.subrange(0, t as int),
                decreases m - t,
            {
                out.push(rest[t]);
                assert(out@ =~= parts@[i as int]@ + seq![sep] + rest@.subrange(0, t + 1 as int));
                t = t + 1;
            }
            proof {
                assert(rest@.subrange(0, m as int) =~= rest@);
                assert(parts.deep_view().skip(i + 1 as int) =~= ps.drop_first());
                assert(ps.len() >= 2);
                assert(out@ =~= spec_join(ps, sep));
            }
            out
        }
    }
}

/// Joining one more piece appends a separator and that piece.
pub proof fn lemma_join_snoc(parts: Seq<Seq<char>>, p: Seq<char>, sep: char)
    requires
        parts.len() >= 1,
    ensures
        spec_join(parts.push(p), sep) == spec_join(parts, sep) + seq![sep] + p,
    decreases parts.len(),
{
    if parts.len() == 1 {
        let two = parts.push(p);
        assert(two.drop_first() =~= seq![p]);
        assert(two[0] == parts[0]);
        assert(spec_join(seq![p], sep) == p);
        assert(spec_join(two, sep) =~= parts[0] + seq![sep] + p);
        assert(spec_join(parts, sep) == parts[0]);
    } else {
        lemma_join_snoc(parts.drop_first(), p, sep);
        let whole = parts.push(p);
        assert(whole.drop_first() =~= parts.drop_first().push(p));
        assert(whole[0] == parts[0]);
        assert(spec_join(whole, sep) == parts[0] + seq![sep] + spec_join(
            parts.drop_first().push(p),
            sep,
        ));
        assert((parts[0] + seq![sep] + (spec_join(parts.drop_first(), sep) + seq![sep] + p)) =~= (
        parts[0] + seq![sep] + spec_join(parts.drop_first(), sep)) + seq![sep] + p);
    }
}

/// The deep view of a char vector is its view.
pub proof fn lemma_chars_deep_view(v: Vec<char>)
    ensures
        v.deep_view() == v@,
{
    assert(v.deep_view() =~= v@);
}

/// Appends all chars of `src` to `dst`.
pub fn push_all(dst: &mut Vec<char>, src: &Vec<char>)
    ensures
        final(dst)@ == old(dst)@ + src@,
{
    let mut t: usize = 0;
    let n = src.len();
    while t < n
        invariant
            t <= n,
            n == src@.len(),
            dst@ == old(dst)@ + src@.subrange(0, t as int),
        decreases n - t,
    {
        dst.push(src[t]);
        assert(dst@ =~= old(dst)@ + src@.subrange(0, t + 1 as int));
        t = t + 1;
    }
    assert(src@.subrange(0, n as int) =~= src@);
}

/// Appends all chars of the string slice `src` to `dst`.
pub fn push_str_chars(dst: &mut Vec<char>, src: &str)
    ensures
        final(dst)@ == old(dst)@ + src@,
{
    let n = src.unicode_len();
    let mut t: usize = 0;
    while t < n
        invariant
            t <= n,
            n == src@.len(),
            dst@ == old(dst)@ + src@.subrange(0, t as int),
        decreases n - t,
    {
        dst.push(src.get_char(t));
        assert(dst@ =~= old(dst)@ + src@.subrange(0, t + 1 as int));
        t = t + 1;
    }
    assert(src@.subrange(0, n as int) =~= src@);
}

} // verus!
