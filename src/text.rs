//! Character-level helpers for reading line-oriented chart text: trimming,
//! splitting, and the integer and decimal number grammars.
use vstd::prelude::*;

verus! {

/// Characters with the Unicode `White_Space` property.
pub open spec fn is_white_space(c: char) -> bool {
    ('\t' <= c && c <= '\r') || c == ' ' || c == '\u{85}' || c == '\u{a0}' || c == '\u{1680}'
        || ('\u{2000}' <= c && c <= '\u{200a}') || c == '\u{2028}' || c == '\u{2029}'
        || c == '\u{202f}' || c == '\u{205f}' || c == '\u{3000}'
}

/// `s` with its leading white space removed.
pub open spec fn trim_start(s: Seq<char>) -> Seq<char>
    decreases s.len(),
{
    if s.len() > 0 && is_white_space(s[0]) {
        trim_start(s.drop_first())
    } else {
        s
    }
}

/// `s` with its trailing white space removed.
pub open spec fn trim_end(s: Seq<char>) -> Seq<char>
    decreases s.len(),
{
    if s.len() > 0 && is_white_space(s.last()) {
        trim_end(s.drop_last())
    } else {
        s
    }
}

pub open spec fn trim(s: Seq<char>) -> Seq<char> {
    trim_end(trim_start(s))
}

/// The pieces of `s` between occurrences of `sep`; always at least one piece.
pub open spec fn split_on(s: Seq<char>, sep: char) -> Seq<Seq<char>>
    decreases s.len(),
{
    if s.len() == 0 {
        seq![Seq::empty()]
    } else {
        let p = split_on(s.drop_last(), sep);
        if s.last() == sep {
            p.push(Seq::empty())
        } else {
            p.update(p.len() - 1, p.last().push(s.last()))
        }
    }
}

/// Index of the first occurrence of `c` in `s`, or -1.
pub open spec fn first_index(s: Seq<char>, c: char) -> int
    decreases s.len(),
{
    if s.len() == 0 {
        -1
    } else {
        let f = first_index(s.drop_last(), c);
        if f >= 0 {
            f
        } else if s.last() == c {
            s.len() - 1
        } else {
            -1
        }
    }
}

/// The text before and after the first occurrence of `c`.
pub open spec fn split_once(s: Seq<char>, c: char) -> Option<(Seq<char>, Seq<char>)> {
    let k = first_index(s, c);
    if k < 0 {
        None
    } else {
        Some((s.subrange(0, k), s.subrange(k + 1, s.len() as int)))
    }
}

/// The pieces joined back together with `sep` between consecutive ones.
pub open spec fn join(pieces: Seq<Seq<char>>, sep: char) -> Seq<char>
    decreases pieces.len(),
{
    if pieces.len() == 0 {
        Seq::empty()
    } else if pieces.len() == 1 {
        pieces[0]
    } else {
        join(pieces.drop_last(), sep).push(sep) + pieces.last()
    }
}

pub open spec fn is_digit(c: char) -> bool {
    '0' <= c && c <= '9'
}

pub open spec fn all_digits(s: Seq<char>) -> bool {
    forall|i: int| 0 <= i < s.len() ==> is_digit(#[trigger] s[i])
}

/// The number written by the decimal digits `s`.
pub open spec fn digits_value(s: Seq<char>) -> nat
    decreases s.len(),
{
    if s.len() == 0 {
        0
    } else {
        digits_value(s.drop_last()) * 10 + (s.last() as nat - '0' as nat) as nat
    }
}

/// An optional `+` or `-` sign followed by at least one decimal digit.
pub open spec fn signed_text_value(s: Seq<char>) -> Option<int> {
    if s.len() > 0 && (s[0] == '+' || s[0] == '-') {
        let body = s.drop_first();
        if body.len() > 0 && all_digits(body) {
            Some(if s[0] == '-' { -digits_value(body) } else { digits_value(body) as int })
        } else {
            None
        }
    } else if s.len() > 0 && all_digits(s) {
        Some(digits_value(s) as int)
    } else {
        None
    }
}

/// The `i32` written by `s`, if `s` is a signed integer in range.
pub open spec fn i32_of(s: Seq<char>) -> Option<i32> {
    match signed_text_value(s) {
        Some(v) => if i32::MIN <= v <= i32::MAX {
            Some(v as i32)
        } else {
            None
        },
        None => None,
    }
}

/// The `u8` written by `s`: an optional `+`, then digits, at most 255.
pub open spec fn u8_of(s: Seq<char>) -> Option<u8> {
    if s.len() > 0 && s[0] == '-' {
        None
    } else {
        match signed_text_value(s) {
            Some(v) => if 0 <= v <= 255 {
                Some(v as u8)
            } else {
                None
            },
            None => None,
        }
    }
}

/// The `u32` written by `s`: an optional `+`, then digits, in range.
pub open spec fn u32_of(s: Seq<char>) -> Option<u32> {
    if s.len() > 0 && s[0] == '-' {
        None
    } else {
        match signed_text_value(s) {
            Some(v) => if 0 <= v <= u32::MAX {
                Some(v as u32)
            } else {
                None
            },
            None => None,
        }
    }
}

/// A number in plain decimal notation: the value is `mantissa / 10^scale`.
#[derive(Clone, Copy, Debug, PartialEq, Eq, Structural)]
pub struct Decimal {
    pub mantissa: i64,
    pub scale: usize,
}

impl Decimal {
    /// The whole number `n`.
    pub fn whole(n: i64) -> (r: Decimal)
        ensures
            r == (Decimal { mantissa: n, scale: 0 }),
    {
        Decimal { mantissa: n, scale: 0 }
    }
}

/// `s` split into its sign, integer digits and fraction digits, where `s` is an
/// optional sign, then digits with at most one `.` among them, with at least one
/// digit in all.
pub open spec fn decimal_parts(s: Seq<char>) -> Option<(bool, Seq<char>, Seq<char>)> {
    let neg = s.len() > 0 && s[0] == '-';
    let body = if s.len() > 0 && (s[0] == '+' || s[0] == '-') {
        s.drop_first()
    } else {
        s
    };
    match split_once(body, '.') {
        Some((a, b)) => if all_digits(a) && all_digits(b) && a.len() + b.len() > 0 {
            Some((neg, a, b))
        } else {
            None
        },
        None => if body.len() > 0 && all_digits(body) {
            Some((neg, body, Seq::empty()))
        } else {
            None
        },
    }
}

/// The decimal written by `s`, if its digits fit in an `i64`.
pub open spec fn decimal_of(s: Seq<char>) -> Option<Decimal> {
    match decimal_parts(s) {
        Some((neg, a, b)) => {
            let m = digits_value(a + b);
            if m <= i64::MAX {
                Some(
                    Decimal {
                        mantissa: (if neg {
                            -m
                        } else {
                            m as int
                        }) as i64,
                        scale: b.len() as usize,
                    },
                )
            } else {
                None
            }
        },
        None => None,
    }
}

/// Relies on `str::chars`, collected: the characters of `s` in order.
#[verifier::external_body]
pub(crate) fn chars_of(s: &str) -> (r: Vec<char>)
    ensures
        r@ == s@,
{
    s.chars().collect()
}

/// Relies on `String::from_iter` over characters: the string of exactly those characters.
#[verifier::external_body]
pub(crate) fn string_of(v: &[char]) -> (r: String)
    ensures
        r@ == v@,
{
    String::from_iter(v.iter())
}

pub fn is_white_space_char(c: char) -> (r: bool)
    ensures
        r == is_white_space(c),
{
    ('\t' <= c && c <= '\r') || c == ' ' || c == '\u{85}' || c == '\u{a0}' || c == '\u{1680}'
        || ('\u{2000}' <= c && c <= '\u{200a}') || c == '\u{2028}' || c == '\u{2029}'
        || c == '\u{202f}' || c == '\u{205f}' || c == '\u{3000}'
}

/// The characters `s[i..j]`.
pub fn slice_chars(s: &[char], i: usize, j: usize) -> (r: Vec<char>)
    requires
        i <= j <= s@.len(),
    ensures
        r@ == s@.subrange(i as int, j as int),
{
    let mut r: Vec<char> = Vec::new();
    let mut k: usize = i;
    while k < j
        invariant
            i <= k <= j <= s@.len(),
            r@ == s@.subrange(i as int, k as int),
        decreases j - k,
    {
        r.push(s[k]);
        k = k + 1;
        assert(r@ =~= s@.subrange(i as int, k as int));
    }
    r
}

/// Whether two character sequences are equal.
pub fn chars_eq(a: &[char], b: &[char]) -> (r: bool)
    ensures
        r == (a@ == b@),
{
    if a.len() != b.len() {
        return false;
    }
    let mut k: usize = 0;
    while k < a.len()
        invariant
            a@.len() == b@.len(),
            k <= a@.len(),
            forall|m: int| 0 <= m < k ==> a@[m] == b@[m],
        decreases a.len() - k,
    {
        if a[k] != b[k] {
            return false;
        }
        k = k + 1;
    }
    assert(a@ =~= b@);
    true
}

proof fn lemma_trim_start_skip(s: Seq<char>, i: int)
    requires
        0 <= i < s.len(),
        is_white_space(s[i]),
    ensures
        trim_start(s.subrange(i, s.len() as int)) == trim_start(s.subrange(i + 1, s.len() as int)),
{
    let t = s.subrange(i, s.len() as int);
    assert(t.drop_first() =~= s.subrange(i + 1, s.len() as int));
}

proof fn lemma_trim_end_skip(s: Seq<char>, j: int)
    requires
        0 < j <= s.len(),
        is_white_space(s[j - 1]),
    ensures
        trim_end(s.subrange(0, j)) == trim_end(s.subrange(0, j - 1)),
{
    let t = s.subrange(0, j);
    assert(t.drop_last() =~= s.subrange(0, j - 1));
}

/// `s` with leading and trailing white space removed.
pub fn trim_chars(s: &[char]) -> (r: Vec<char>)
    ensures
        r@ == trim(s@),
{
    let n = s.len();
    let mut i: usize = 0;
    assert(s@.subrange(0, n as int) =~= s@);
    while i < n && is_white_space_char(s[i])
        invariant
            i <= n == s@.len(),
            trim_start(s@) == trim_start(s@.subrange(i as int, n as int)),
        decreases n - i,
    {
        proof {
            lemma_trim_start_skip(s@, i as int);
        }
        i = i + 1;
    }
    let ghost t = s@.subrange(i as int, n as int);
    assert(trim_start(s@) == t);
    let mut j: usize = n;
    while j > i && is_white_space_char(s[j - 1])
        invariant
            i <= j <= n == s@.len(),
            t == s@.subrange(i as int, n as int),
            trim_end(t) == trim_end(s@.subrange(i as int, j as int)),
        decreases j,
    {
        proof {
            let u = s@.subrange(i as int, n as int);
            assert(u.subrange(0, (j - i) as int) =~= s@.subrange(i as int, j as int));
            assert(u.subrange(0, (j - i - 1) as int) =~= s@.subrange(i as int, j - 1));
            lemma_trim_end_skip(u, (j - i) as int);
        }
        j = j - 1;
    }
    slice_chars(s, i, j)
}

/// The contents of each vector.
pub open spec fn char_vecs(p: Seq<Vec<char>>) -> Seq<Seq<char>> {
    p.map_values(|v: Vec<char>| v@)
}

/// The pieces of `s` between occurrences of `sep`.
pub fn split_chars(s: &[char], sep: char) -> (r: Vec<Vec<char>>)
    ensures
        char_vecs(r@) == split_on(s@, sep),
{
    let mut pieces: Vec<Vec<char>> = Vec::new();
    let mut cur: Vec<char> = Vec::new();
    let mut i: usize = 0;
    while i < s.len()
        invariant
            i <= s@.len(),
            split_on(s@.subrange(0, i as int), sep) == pieces@.map_values(|v: Vec<char>| v@).push(
                cur@,
            ),
        decreases s.len() - i,
    {
        let ghost t = s@.subrange(0, i as int + 1);
        assert(t.drop_last() =~= s@.subrange(0, i as int));
        if s[i] == sep {
            let done = cur;
            pieces.push(done);
            cur = Vec::new();
        } else {
            cur.push(s[i]);
        }
        i = i + 1;
        assert(split_on(s@.subrange(0, i as int), sep) =~= pieces@.map_values(
            |v: Vec<char>| v@,
        ).push(cur@));
    }
    pieces.push(cur);
    assert(s@.subrange(0, s@.len() as int) =~= s@);
    assert(char_vecs(pieces@) =~= split_on(s@, sep));
    pieces
}

proof fn lemma_first_index_prefix(s: Seq<char>, c: char, k: int, j: int)
    requires
        0 <= k < j <= s.len(),
        s[k] == c,
        forall|m: int| 0 <= m < k ==> s[m] != c,
    ensures
        first_index(s.subrange(0, j), c) == k,
    decreases j,
{
    let t = s.subrange(0, j);
    assert(t.drop_last() =~= s.subrange(0, j - 1));
    if j == k + 1 {
        lemma_first_index_absent(s, c, k);
    } else {
        lemma_first_index_prefix(s, c, k, j - 1);
    }
}

proof fn lemma_first_index_absent(s: Seq<char>, c: char, j: int)
    requires
        0 <= j <= s.len(),
        forall|m: int| 0 <= m < j ==> s[m] != c,
    ensures
        first_index(s.subrange(0, j), c) == -1,
    decreases j,
{
    if j > 0 {
        let t = s.subrange(0, j);
        assert(t.drop_last() =~= s.subrange(0, j - 1));
        lemma_first_index_absent(s, c, j - 1);
    }
}

/// Position of the first `c` in `s`.
pub fn find_char(s: &[char], c: char) -> (r: Option<usize>)
    ensures
        match r {
            Some(k) => first_index(s@, c) == k,
            None => first_index(s@, c) == -1,
        },
{
    let mut i: usize = 0;
    while i < s.len()
        invariant
            i <= s@.len(),
            forall|m: int| 0 <= m < i ==> s@[m] != c,
        decreases s.len() - i,
    {
        if s[i] == c {
            proof {
                lemma_first_index_prefix(s@, c, i as int, s@.len() as int);
                assert(s@.subrange(0, s@.len() as int) =~= s@);
            }
            return Some(i);
        }
        i = i + 1;
    }
    proof {
        lemma_first_index_absent(s@, c, s@.len() as int);
        assert(s@.subrange(0, s@.len() as int) =~= s@);
    }
    None
}

/// The text before and after the first `c` in `s`.
pub fn split_once_chars(s: &[char], c: char) -> (r: Option<(Vec<char>, Vec<char>)>)
    ensures
        match r {
            Some((a, b)) => split_once(s@, c) == Some((a@, b@)),
            None => split_once(s@, c) is None,
        },
{
    let n = s.len();
    match find_char(s, c) {
        Some(k) => {
            proof {
                lemma_first_index_bounds(s@, c);
                assert(k < n);
            }
            Some((slice_chars(s, 0, k), slice_chars(s, k + 1, n)))
        },
        None => None,
    }
}

proof fn lemma_first_index_bounds(s: Seq<char>, c: char)
    ensures
        -1 <= first_index(s, c) < s.len(),
        first_index(s, c) >= 0 ==> s[first_index(s, c)] == c,
    decreases s.len(),
{
    if s.len() > 0 {
        lemma_first_index_bounds(s.drop_last(), c);
    }
}

/// Running value of a digit string, held at `cap` once it reaches it.
spec fn capped(v: nat, cap: nat) -> nat {
    if v < cap {
        v
    } else {
        cap
    }
}

/// Value of the digits `s`, or `cap` where that value is `cap` or more;
/// `None` where `s` holds a non-digit.
fn digits_capped(s: &[char], start: usize, cap: u128) -> (r: Option<u128>)
    requires
        start <= s@.len(),
        cap <= 0x1_0000_0000_0000_0000,
    ensures
        match r {
            Some(v) => all_digits(s@.subrange(start as int, s@.len() as int)) && v == capped(
                digits_value(s@.subrange(start as int, s@.len() as int)),
                cap as nat,
            ),
            None => !all_digits(s@.subrange(start as int, s@.len() as int)),
        },
{
    let mut v: u128 = 0;
    let mut i: usize = start;
    while i < s.len()
        invariant
            start <= i <= s@.len(),
            cap <= 0x1_0000_0000_0000_0000,
            all_digits(s@.subrange(start as int, i as int)),
            v == capped(digits_value(s@.subrange(start as int, i as int)), cap as nat),
        decreases s.len() - i,
    {
        let ch = s[i];
        if !('0' <= ch && ch <= '9') {
            assert(s@.subrange(start as int, s@.len() as int)[i - start] == ch);
            return None;
        }
        let d = (ch as u32 - '0' as u32) as u128;
        let ghost old_prefix = s@.subrange(start as int, i as int);
        let ghost x = digits_value(old_prefix);
        let nv = v * 10 + d;
        proof {
            assert(d < 10);
            assert(capped(x * 10 + d as nat, cap as nat) == capped(v as nat * 10 + d as nat, cap as nat))
                by (nonlinear_arith)
                requires
                    v == capped(x, cap as nat),
                    d < 10,
            ;
        }
        v = if nv < cap { nv } else { cap };
        i = i + 1;
        proof {
            let p = s@.subrange(start as int, i as int);
            assert(p.drop_last() =~= old_prefix);
            assert(p.last() == ch);
        }
    }
    Some(v)
}

/// `a` followed by `b`.
pub fn concat_chars(a: &[char], b: &[char]) -> (r: Vec<char>)
    ensures
        r@ == a@ + b@,
{
    let mut r = slice_chars(a, 0, a.len());
    let mut k: usize = 0;
    while k < b.len()
        invariant
            k <= b@.len(),
            r@ == a@ + b@.subrange(0, k as int),
        decreases b.len() - k,
    {
        r.push(b[k]);
        k = k + 1;
        assert(r@ =~= a@ + b@.subrange(0, k as int));
    }
    assert(b@.subrange(0, b@.len() as int) =~= b@);
    r
}

/// Reads `s` as a signed decimal integer, as `str::parse::<i32>` does.
pub fn parse_i32(s: &[char]) -> (r: Option<i32>)
    ensures
        r == i32_of(s@),
{
    let n = s.len();
    if n == 0 {
        return None;
    }
    let signed = s[0] == '+' || s[0] == '-';
    let start: usize = if signed { 1 } else { 0 };
    if start == n {
        return None;
    }
    assert(s@.subrange(1, n as int) =~= s@.drop_first());
    assert(s@.subrange(0, n as int) =~= s@);
    match digits_capped(s, start, 0x8000_0001) {
        Some(v) => {
            if s[0] == '-' {
                if v <= 0x8000_0000 {
                    Some((0 - (v as i64)) as i32)
                } else {
                    None
                }
            } else if v <= 0x7fff_ffff {
                Some(v as i32)
            } else {
                None
            }
        },
        None => None,
    }
}

/// Reads `s` as an unsigned decimal integer of at most 255, as `str::parse::<u8>` does.
pub fn parse_u8(s: &[char]) -> (r: Option<u8>)
    ensures
        r == u8_of(s@),
{
    let n = s.len();
    if n == 0 || s[0] == '-' {
        return None;
    }
    let start: usize = if s[0] == '+' { 1 } else { 0 };
    if start == n {
        return None;
    }
    assert(s@.subrange(1, n as int) =~= s@.drop_first());
    assert(s@.subrange(0, n as int) =~= s@);
    match digits_capped(s, start, 256) {
        Some(v) => if v <= 255 {
            Some(v as u8)
        } else {
            None
        },
        None => None,
    }
}

proof fn lemma_all_digits_concat(a: Seq<char>, b: Seq<char>)
    ensures
        all_digits(a + b) == (all_digits(a) && all_digits(b)),
{
    if all_digits(a + b) {
        assert forall|i: int| 0 <= i < a.len() implies is_digit(#[trigger] a[i]) by {
            assert((a + b)[i] == a[i]);
        }
        assert forall|i: int| 0 <= i < b.len() implies is_digit(#[trigger] b[i]) by {
            assert((a + b)[a.len() + i] == b[i]);
        }
    }
    if all_digits(a) && all_digits(b) {
        assert forall|i: int| 0 <= i < (a + b).len() implies is_digit(#[trigger] (a + b)[i]) by {
            if i < a.len() {
                assert((a + b)[i] == a[i]);
            } else {
                assert((a + b)[i] == b[i - a.len()]);
            }
        }
    }
}

/// Reads `s` as a number in plain decimal notation: an optional sign, digits,
/// and at most one `.` among them.
pub fn parse_decimal(s: &[char]) -> (r: Option<Decimal>)
    ensures
        r == decimal_of(s@),
{
    let n = s.len();
    let start: usize = if n > 0 && (s[0] == '+' || s[0] == '-') { 1 } else { 0 };
    let neg = n > 0 && s[0] == '-';
    let body = slice_chars(s, start, n);
    assert(start == 1 ==> body@ =~= s@.drop_first());
    assert(start == 0 ==> body@ =~= s@);
    match split_once_chars(&body, '.') {
        Some((a, b)) => {
            if a.len() == 0 && b.len() == 0 {
                return None;
            }
            let ab = concat_chars(&a, &b);
            proof {
                lemma_all_digits_concat(a@, b@);
                assert(ab@.subrange(0, ab@.len() as int) =~= ab@);
            }
            match digits_capped(&ab, 0, 0x8000_0000_0000_0000) {
                Some(v) => if v <= 0x7fff_ffff_ffff_ffff {
                    let m = v as i64;
                    Some(Decimal { mantissa: if neg { 0 - m } else { m }, scale: b.len() })
                } else {
                    None
                },
                None => None,
            }
        },
        None => {
            if body.len() == 0 {
                return None;
            }
            assert(body@.subrange(0, body@.len() as int) =~= body@);
            match digits_capped(&body, 0, 0x8000_0000_0000_0000) {
                Some(v) => if v <= 0x7fff_ffff_ffff_ffff {
                    let m = v as i64;
                    Some(Decimal { mantissa: if neg { 0 - m } else { m }, scale: 0 })
                } else {
                    None
                },
                None => None,
            }
        },
    }
}

/// Reads `s` as an unsigned decimal integer, as `str::parse::<u32>` does.
pub fn parse_u32(s: &[char]) -> (r: Option<u32>)
    ensures
        r == u32_of(s@),
{
    let n = s.len();
    if n == 0 || s[0] == '-' {
        return None;
    }
    let start: usize = if s[0] == '+' { 1 } else { 0 };
    if start == n {
        return None;
    }
    assert(s@.subrange(1, n as int) =~= s@.drop_first());
    assert(s@.subrange(0, n as int) =~= s@);
    match digits_capped(s, start, 0x1_0000_0000) {
        Some(v) => if v <= 0xffff_ffff {
            Some(v as u32)
        } else {
            None
        },
        None => None,
    }
}

} // verus!
