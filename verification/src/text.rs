//! Character-level text building and parsing: decimal and hexadecimal
//! numerals, padding, trimming and a few string predicates.
use vstd::prelude::*;
use vstd::string::*;

verus! {

/// The digit characters, lower-case hexadecimal.
pub open spec fn lower_digits() -> Seq<char> {
    seq!['0', '1', '2', '3', '4', '5', '6', '7', '8', '9', 'a', 'b', 'c', 'd', 'e', 'f']
}

/// The digit characters, upper-case hexadecimal.
pub open spec fn upper_digits() -> Seq<char> {
    seq!['0', '1', '2', '3', '4', '5', '6', '7', '8', '9', 'A', 'B', 'C', 'D', 'E', 'F']
}

/// The digit character for `d` (which must be below 16).
pub open spec fn digit_char(d: nat, upper: bool) -> char {
    if upper {
        upper_digits()[d as int]
    } else {
        lower_digits()[d as int]
    }
}

/// The decimal numeral of `n`, without leading zeros.
pub open spec fn dec_str(n: nat) -> Seq<char>
    decreases n,
{
    if n < 10 {
        seq![digit_char(n, false)]
    } else {
        dec_str(n / 10) + seq![digit_char(n % 10, false)]
    }
}

proof fn lemma_decimal_digit(d: nat, e: nat)
    requires
        d < 10,
        e < 10,
    ensures
        digit_char(d, false) != '.',
        digit_char(d, false) == digit_char(e, false) ==> d == e,
{
    let s = lower_digits();
    assert(s[0] == '0' && s[1] == '1' && s[2] == '2' && s[3] == '3' && s[4] == '4');
    assert(s[5] == '5' && s[6] == '6' && s[7] == '7' && s[8] == '8' && s[9] == '9');
}

/// A decimal numeral is made of digits, and has one digit exactly for the
/// numbers below ten.
pub proof fn lemma_dec_str_digits(n: nat)
    ensures
        dec_str(n).len() >= 1,
        (dec_str(n).len() == 1) == (n < 10),
        forall|i: int| 0 <= i < dec_str(n).len() ==> #[trigger] dec_str(n)[i] != '.',
    decreases n,
{
    if n < 10 {
        lemma_decimal_digit(n, n);
    } else {
        lemma_dec_str_digits(n / 10);
        lemma_decimal_digit(n % 10, n % 10);
        let p = dec_str(n / 10);
        assert forall|i: int| 0 <= i < dec_str(n).len() implies #[trigger] dec_str(n)[i] != '.' by {
            if i < p.len() {
                assert(dec_str(n)[i] == p[i]);
            }
        }
    }
}

/// Different numbers have different decimal numerals.
pub proof fn lemma_dec_str_injective(a: nat, b: nat)
    requires
        dec_str(a) == dec_str(b),
    ensures
        a == b,
    decreases a,
{
    lemma_dec_str_digits(a);
    lemma_dec_str_digits(b);
    if a < 10 {
        assert(dec_str(a)[0] == digit_char(a, false));
        assert(dec_str(b)[0] == digit_char(b, false));
        lemma_decimal_digit(a, b);
    } else {
        assert(dec_str(a / 10) =~= dec_str(a).drop_last());
        assert(dec_str(b / 10) =~= dec_str(b).drop_last());
        lemma_dec_str_injective(a / 10, b / 10);
        assert(dec_str(a).last() == digit_char(a % 10, false));
        assert(dec_str(b).last() == digit_char(b % 10, false));
        lemma_decimal_digit(a % 10, b % 10);
    }
}

/// A decimal numeral followed by a dot and more text can be read back: the
/// number and the rest are determined by the whole.
pub proof fn lemma_dec_dot_split(a: nat, b: nat, r1: Seq<char>, r2: Seq<char>)
    requires
        dec_str(a) + "."@ + r1 == dec_str(b) + "."@ + r2,
    ensures
        a == b,
        r1 == r2,
{
    reveal_strlit(".");
    let x = dec_str(a);
    let y = dec_str(b);
    let t = x + "."@ + r1;
    let u = y + "."@ + r2;
    lemma_dec_str_digits(a);
    lemma_dec_str_digits(b);
    if x.len() < y.len() {
        assert(t[x.len() as int] == '.');
        assert(u[x.len() as int] == y[x.len() as int]);
    } else if y.len() < x.len() {
        assert(u[y.len() as int] == '.');
        assert(t[y.len() as int] == x[y.len() as int]);
    } else {
        assert(x =~= t.subrange(0, x.len() as int));
        assert(y =~= u.subrange(0, y.len() as int));
        lemma_dec_str_injective(a, b);
        assert(r1 =~= t.subrange(x.len() as int + 1, t.len() as int));
        assert(r2 =~= u.subrange(y.len() as int + 1, u.len() as int));
    }
}

/// The hexadecimal numeral of `n`, without leading zeros.
pub open spec fn hex_str(n: nat, upper: bool) -> Seq<char>
    decreases n,
{
    if n < 16 {
        seq![digit_char(n, upper)]
    } else {
        hex_str(n / 16, upper) + seq![digit_char(n % 16, upper)]
    }
}

/// `s` preceded by copies of `fill` up to `width` characters.
pub open spec fn pad_left(s: Seq<char>, width: nat, fill: char) -> Seq<char> {
    if s.len() < width {
        Seq::new((width - s.len()) as nat, |i: int| fill) + s
    } else {
        s
    }
}

/// `s` followed by spaces up to `width` characters.
pub open spec fn pad_right(s: Seq<char>, width: nat) -> Seq<char> {
    if s.len() < width {
        s + Seq::new((width - s.len()) as nat, |i: int| ' ')
    } else {
        s
    }
}

/// The decimal numeral of `n`, zero-padded to at least `width` digits.
pub open spec fn dec_padded(n: nat, width: nat) -> Seq<char> {
    pad_left(dec_str(n), width, '0')
}

/// Whether `c` has the Unicode White_Space property (what `char::is_whitespace` tests).
pub open spec fn is_white(c: char) -> bool {
    ||| ('\u{9}' <= c && c <= '\u{d}')
    ||| c == ' '
    ||| c == '\u{85}'
    ||| c == '\u{a0}'
    ||| c == '\u{1680}'
    ||| ('\u{2000}' <= c && c <= '\u{200a}')
    ||| c == '\u{2028}'
    ||| c == '\u{2029}'
    ||| c == '\u{202f}'
    ||| c == '\u{205f}'
    ||| c == '\u{3000}'
}

/// Number of leading white-space characters of `s`.
pub open spec fn lead_white(s: Seq<char>) -> nat
    decreases s.len(),
{
    if s.len() > 0 && is_white(s[0]) {
        1 + lead_white(s.drop_first())
    } else {
        0
    }
}

/// Number of trailing white-space characters of `s`.
pub open spec fn trail_white(s: Seq<char>) -> nat
    decreases s.len(),
{
    if s.len() > 0 && is_white(s.last()) {
        1 + trail_white(s.drop_last())
    } else {
        0
    }
}

/// `s` without leading and trailing white space (what `str::trim` returns).
pub open spec fn trimmed(s: Seq<char>) -> Seq<char> {
    let a = lead_white(s);
    if a == s.len() {
        Seq::empty()
    } else {
        s.subrange(a as int, s.len() - trail_white(s))
    }
}

/// Whether `s` ends with `suffix`.
pub open spec fn has_suffix(s: Seq<char>, suffix: Seq<char>) -> bool {
    suffix.len() <= s.len() && s.subrange(s.len() - suffix.len(), s.len() as int) == suffix
}

/// Whether `needle` occurs in `s` as a contiguous piece.
pub open spec fn has_infix(s: Seq<char>, needle: Seq<char>) -> bool {
    exists|i: int| 0 <= i && i + needle.len() <= s.len() && #[trigger] s.subrange(i, i + needle.len()) == needle
}

/// The code point of the ASCII lower-case form of `c` (what `char::to_ascii_lowercase` gives).
pub open spec fn ascii_lower(c: char) -> u32 {
    if 'A' <= c && c <= 'Z' {
        (c as u32 + 32) as u32
    } else {
        c as u32
    }
}

/// The value of the digit character `c` in base `radix`, if it is one
/// (what `char::to_digit` returns, for radix 10 or 16).
pub open spec fn digit_value(c: char, radix: nat) -> Option<nat> {
    let v: nat = if '0' <= c && c <= '9' {
        (c as u32 - '0' as u32) as nat
    } else if 'a' <= c && c <= 'z' {
        (c as u32 - 'a' as u32 + 10) as nat
    } else if 'A' <= c && c <= 'Z' {
        (c as u32 - 'A' as u32 + 10) as nat
    } else {
        radix
    };
    if v < radix {
        Some(v)
    } else {
        None
    }
}

/// Whether every character of `d` is a digit in base `radix`.
pub open spec fn all_digits(d: Seq<char>, radix: nat) -> bool {
    forall|i: int| 0 <= i < d.len() ==> (#[trigger] digit_value(d[i], radix)) is Some
}

/// The value of the digit string `d` in base `radix`.
pub open spec fn digits_value(d: Seq<char>, radix: nat) -> nat
    decreases d.len(),
{
    if d.len() == 0 {
        0
    } else {
        digits_value(d.drop_last(), radix) * radix + digit_value(d.last(), radix).unwrap()
    }
}

/// The digits that an unsigned integer parse reads: all of `s`, or all but a leading `+`.
pub open spec fn unsigned_body(s: Seq<char>) -> Seq<char> {
    if s.len() > 0 && s[0] == '+' {
        s.drop_first()
    } else {
        s
    }
}

/// What `from_str_radix` gives for an unsigned type whose largest value is `max`:
/// the value of the digits after an optional `+`, when there is at least one digit,
/// all are digits of the radix and the value does not exceed `max`.
pub open spec fn parse_unsigned(s: Seq<char>, radix: nat, max: nat) -> Option<nat> {
    let d = unsigned_body(s);
    if d.len() > 0 && all_digits(d, radix) && digits_value(d, radix) <= max {
        Some(digits_value(d, radix))
    } else {
        None
    }
}

/// Appends one character to `s`.
#[verifier::external_body]
pub(crate) fn push_char(s: &mut String, c: char)
    ensures
        final(s)@ == old(s)@.push(c),
{
    s.push(c);
}

/// A new string holding the characters of `t`.
pub fn string_of(t: &str) -> (r: String)
    ensures
        r@ == t@,
{
    String::from_str(t)
}

/// Appends `t` to `s`.
pub fn push_str(s: &mut String, t: &str)
    ensures
        final(s)@ == old(s)@ + t@,
{
    s.append(t);
}

fn digit_of(d: u64, upper: bool) -> (c: char)
    requires
        d < 16,
    ensures
        c == digit_char(d as nat, upper),
{
    let c = if d < 10 {
        match d {
            0 => '0',
            1 => '1',
            2 => '2',
            3 => '3',
            4 => '4',
            5 => '5',
            6 => '6',
            7 => '7',
            8 => '8',
            _ => '9',
        }
    } else if upper {
        match d {
            10 => 'A',
            11 => 'B',
            12 => 'C',
            13 => 'D',
            14 => 'E',
            _ => 'F',
        }
    } else {
        match d {
            10 => 'a',
            11 => 'b',
            12 => 'c',
            13 => 'd',
            14 => 'e',
            _ => 'f',
        }
    };
    c
}

/// Appends the decimal numeral of `n` to `s`.
pub fn push_decimal(s: &mut String, n: u64)
    ensures
        final(s)@ == old(s)@ + dec_str(n as nat),
    decreases n,
{
    if n >= 10 {
        push_decimal(s, n / 10);
    }
    let c = digit_of(n % 10, false);
    push_char(s, c);
}

/// Appends the hexadecimal numeral of `n` to `s`.
pub fn push_hex(s: &mut String, n: u64, upper: bool)
    ensures
        final(s)@ == old(s)@ + hex_str(n as nat, upper),
    decreases n,
{
    if n >= 16 {
        push_hex(s, n / 16, upper);
    }
    let c = digit_of(n % 16, upper);
    push_char(s, c);
}

/// Appends `count` copies of `c` to `s`.
pub fn push_repeat(s: &mut String, c: char, count: usize)
    ensures
        final(s)@ == old(s)@ + Seq::new(count as nat, |i: int| c),
{
    let ghost start = s@;
    let mut i: usize = 0;
    while i < count
        invariant
            i <= count,
            s@ == start + Seq::new(i as nat, |k: int| c),
        decreases count - i,
    {
        push_char(s, c);
        i = i + 1;
        assert(s@ =~= start + Seq::new(i as nat, |k: int| c));
    }
}

/// Appends `t` to `s`, preceded by copies of `fill` up to `width` characters.
pub fn push_padded_left(s: &mut String, t: &str, width: usize, fill: char)
    ensures
        final(s)@ == old(s)@ + pad_left(t@, width as nat, fill),
{
    let len = t.unicode_len();
    if len < width {
        push_repeat(s, fill, width - len);
    }
    s.append(t);
    assert(s@ =~= old(s)@ + pad_left(t@, width as nat, fill));
}

/// Appends `t` to `s`, followed by spaces up to `width` characters.
pub fn push_padded_right(s: &mut String, t: &str, width: usize)
    ensures
        final(s)@ == old(s)@ + pad_right(t@, width as nat),
{
    let len = t.unicode_len();
    s.append(t);
    if len < width {
        push_repeat(s, ' ', width - len);
    }
    assert(s@ =~= old(s)@ + pad_right(t@, width as nat));
}

/// The decimal numeral of `n`.
pub fn decimal_string(n: u64) -> (r: String)
    ensures
        r@ == dec_str(n as nat),
{
    let mut s = String::new();
    push_decimal(&mut s, n);
    assert(s@ =~= dec_str(n as nat));
    s
}

/// Appends the decimal numeral of `n`, zero-padded to `width` digits, to `s`.
pub fn push_decimal_padded(s: &mut String, n: u64, width: usize)
    ensures
        final(s)@ == old(s)@ + dec_padded(n as nat, width as nat),
{
    let d = decimal_string(n);
    push_padded_left(s, d.as_str(), width, '0');
}

/// Appends the hexadecimal numeral of `n`, zero-padded to `width` digits, to `s`.
pub fn push_hex_padded(s: &mut String, n: u64, width: usize, upper: bool)
    ensures
        final(s)@ == old(s)@ + pad_left(hex_str(n as nat, upper), width as nat, '0'),
{
    let mut d = String::new();
    push_hex(&mut d, n, upper);
    assert(d@ =~= hex_str(n as nat, upper));
    push_padded_left(s, d.as_str(), width, '0');
}

fn digit_value_exec(c: char, radix: u32) -> (r: Option<u32>)
    requires
        radix <= 36,
    ensures
        match r {
            Some(v) => digit_value(c, radix as nat) == Some(v as nat),
            None => digit_value(c, radix as nat) is None,
        },
{
    let v: u32 = if '0' <= c && c <= '9' {
        (c as u32) - ('0' as u32)
    } else if 'a' <= c && c <= 'z' {
        (c as u32) - ('a' as u32) + 10
    } else if 'A' <= c && c <= 'Z' {
        (c as u32) - ('A' as u32) + 10
    } else {
        radix
    };
    if v < radix {
        Some(v)
    } else {
        None
    }
}

proof fn lemma_digits_value_grows(d: Seq<char>, radix: nat, i: int, j: int)
    requires
        radix >= 1,
        0 <= i <= j <= d.len(),
        all_digits(d, radix),
    ensures
        digits_value(d.take(i), radix) <= digits_value(d.take(j), radix),
    decreases j - i,
{
    if i < j {
        lemma_digits_value_grows(d, radix, i, j - 1);
        assert(d.take(j).drop_last() =~= d.take(j - 1));
        assert(d.take(j).last() == d[j - 1]);
        assert(digit_value(d[j - 1], radix) is Some);
        let a = digits_value(d.take(j - 1), radix);
        assert(a * radix >= a) by (nonlinear_arith)
            requires
                radix >= 1,
        ;
    }
}

/// Parses an unsigned integer in base `radix` no larger than `max`, as
/// `from_str_radix` does for an unsigned type.
pub fn parse_unsigned_str(s: &str, radix: u32, max: u64) -> (r: Option<u64>)
    requires
        2 <= radix <= 16,
    ensures
        match r {
            Some(v) => parse_unsigned(s@, radix as nat, max as nat) == Some(v as nat),
            None => parse_unsigned(s@, radix as nat, max as nat) is None,
        },
{
    let n = s.unicode_len();
    let ghost d = unsigned_body(s@);
    let start: usize = if n > 0 && s.get_char(0) == '+' {
        1
    } else {
        0
    };
    assert(d =~= s@.subrange(start as int, n as int));
    if start >= n {
        return None;
    }
    let mut acc: u64 = 0;
    let mut i: usize = start;
    while i < n
        invariant
            start <= i <= n,
            n == s@.len(),
            start < n,
            d == s@.subrange(start as int, n as int),
            d == unsigned_body(s@),
            2 <= radix <= 16,
            acc as nat == digits_value(d.take(i - start), radix as nat),
            acc <= max,
            forall|k: int| 0 <= k < i - start ==> (#[trigger] digit_value(d[k], radix as nat)) is Some,
        decreases n - i,
    {
        let c = s.get_char(i);
        assert(c == d[i - start]);
        let dv = digit_value_exec(c, radix);
        match dv {
            None => {
                assert(digit_value(d[i - start], radix as nat) is None);
                assert(!all_digits(d, radix as nat));
                return None;
            },
            Some(v) => {
                assert((acc as u128) * (radix as u128) <= 0xffff_ffff_ffff_ffffu128 * 16) by (nonlinear_arith)
                    requires
                        acc <= 0xffff_ffff_ffff_ffffu64,
                        radix <= 16,
                ;
                let next: u128 = (acc as u128) * (radix as u128) + (v as u128);
                assert(d.take(i - start + 1).drop_last() =~= d.take(i - start));
                assert(d.take(i - start + 1).last() == d[i - start]);
                assert(next as nat == digits_value(d.take(i - start + 1), radix as nat));
                if next > max as u128 {
                    proof {
                        if all_digits(d, radix as nat) {
                            lemma_digits_value_grows(d, radix as nat, i - start + 1, d.len() as int);
                            assert(d.take(d.len() as int) =~= d);
                        }
                    }
                    return None;
                }
                acc = next as u64;
                i = i + 1;
            },
        }
    }
    assert(d.take(d.len() as int) =~= d);
    assert(all_digits(d, radix as nat));
    Some(acc)
}

/// The characters of `s` without leading and trailing white space.
pub fn trim_str(s: &str) -> (r: String)
    ensures
        r@ == trimmed(s@),
{
    let n = s.unicode_len();
    let mut a: usize = 0;
    assert(s@.skip(0) =~= s@);
    while a < n && is_white_exec(s.get_char(a))
        invariant
            a <= n,
            n == s@.len(),
            lead_white(s@) == a + lead_white(s@.skip(a as int)),
        decreases n - a,
    {
        assert(s@.skip(a as int).drop_first() =~= s@.skip(a + 1));
        a = a + 1;
    }
    assert(lead_white(s@.skip(a as int)) == 0) by {
        if a < n {
            assert(s@.skip(a as int)[0] == s@[a as int]);
        }
    }
    let mut r = String::new();
    if a == n {
        return r;
    }
    let mut b: usize = n;
    assert(s@.take(n as int) =~= s@);
    while b > a && is_white_exec(s.get_char(b - 1))
        invariant
            a < n,
            a < b <= n,
            n == s@.len(),
            !is_white(s@[a as int]),
            trail_white(s@) == (n - b) + trail_white(s@.take(b as int)),
        decreases b,
    {
        assert(s@.take(b as int).drop_last() =~= s@.take(b - 1));
        b = b - 1;
    }
    assert(trail_white(s@.take(b as int)) == 0) by {
        assert(s@.take(b as int).last() == s@[b - 1]);
    }
    let mut i: usize = a;
    while i < b
        invariant
            a <= i <= b <= n,
            n == s@.len(),
            r@ == s@.subrange(a as int, i as int),
        decreases b - i,
    {
        push_char(&mut r, s.get_char(i));
        i = i + 1;
        assert(r@ =~= s@.subrange(a as int, i as int));
    }
    r
}

/// Whether `c` is white space.
pub fn is_white_exec(c: char) -> (r: bool)
    ensures
        r == is_white(c),
{
    ('\u{9}' <= c && c <= '\u{d}') || c == ' ' || c == '\u{85}' || c == '\u{a0}' || c == '\u{1680}'
        || ('\u{2000}' <= c && c <= '\u{200a}') || c == '\u{2028}' || c == '\u{2029}' || c
        == '\u{202f}' || c == '\u{205f}' || c == '\u{3000}'
}

/// Whether `s` ends with `suffix`.
pub fn ends_with_str(s: &str, suffix: &str) -> (r: bool)
    ensures
        r == has_suffix(s@, suffix@),
{
    let n = s.unicode_len();
    let m = suffix.unicode_len();
    if m > n {
        return false;
    }
    let mut i: usize = 0;
    while i < m
        invariant
            i <= m <= n,
            n == s@.len(),
            m == suffix@.len(),
            forall|k: int| 0 <= k < i ==> s@[n - m + k] == suffix@[k],
        decreases m - i,
    {
        if s.get_char(n - m + i) != suffix.get_char(i) {
            assert(s@.subrange(n - m, n as int)[i as int] != suffix@[i as int]);
            return false;
        }
        i = i + 1;
    }
    assert(s@.subrange(n - m, n as int) =~= suffix@);
    true
}

/// Whether `needle` occurs in `s`.
pub fn contains_str(s: &str, needle: &str) -> (r: bool)
    ensures
        r == has_infix(s@, needle@),
{
    let n = s.unicode_len();
    let m = needle.unicode_len();
    if m > n {
        assert forall|i: int| 0 <= i && i + needle@.len() <= s@.len() implies #[trigger] s@.subrange(i, i + needle@.len()) != needle@ by {}
        return false;
    }
    let mut i: usize = 0;
    while i <= n - m
        invariant
            m <= n,
            n == s@.len(),
            m == needle@.len(),
            i <= n - m + 1,
            forall|p: int| 0 <= p < i ==> #[trigger] s@.subrange(p, p + m) != needle@,
        decreases n + 1 - i,
    {
        let mut j: usize = 0;
        let mut same = true;
        while j < m
            invariant
                j <= m,
                i + m <= n,
                n == s@.len(),
                m == needle@.len(),
                same == (forall|k: int| 0 <= k < j ==> s@[i + k] == needle@[k]),
            decreases m - j,
        {
            if s.get_char(i + j) != needle.get_char(j) {
                same = false;
            }
            j = j + 1;
        }
        if same {
            assert(s@.subrange(i as int, i + m) =~= needle@);
            return true;
        }
        assert(s@.subrange(i as int, i + m) != needle@) by {
            let k = choose|k: int| 0 <= k < m && s@[i + k] != needle@[k];
            assert(s@.subrange(i as int, i + m)[k] == s@[i + k]);
        }
        i = i + 1;
    }
    assert forall|p: int| 0 <= p && p + needle@.len() <= s@.len() implies #[trigger] s@.subrange(p, p + needle@.len()) != needle@ by {}
    false
}

/// Whether `a` and `b` are equal up to ASCII case (what `str::eq_ignore_ascii_case` tests).
pub fn eq_ignore_ascii_case_str(a: &str, b: &str) -> (r: bool)
    ensures
        r == (a@.len() == b@.len() && forall|i: int| 0 <= i < a@.len() ==> #[trigger] ascii_lower(a@[i]) == ascii_lower(b@[i])),
{
    let n = a.unicode_len();
    if n != b.unicode_len() {
        return false;
    }
    let mut i: usize = 0;
    while i < n
        invariant
            i <= n,
            n == a@.len(),
            n == b@.len(),
            forall|k: int| 0 <= k < i ==> #[trigger] ascii_lower(a@[k]) == ascii_lower(b@[k]),
        decreases n - i,
    {
        if ascii_lower_exec(a.get_char(i)) != ascii_lower_exec(b.get_char(i)) {
            return false;
        }
        i = i + 1;
    }
    true
}

fn ascii_lower_exec(c: char) -> (r: u32)
    ensures
        r == ascii_lower(c),
{
    if 'A' <= c && c <= 'Z' {
        (c as u32) + 32
    } else {
        c as u32
    }
}

/// Whether `a` and `b` hold the same characters.
pub fn str_equal(a: &str, b: &str) -> (r: bool)
    ensures
        r == (a@ == b@),
{
    let n = a.unicode_len();
    if n != b.unicode_len() {
        return false;
    }
    let mut i: usize = 0;
    while i < n
        invariant
            i <= n,
            n == a@.len(),
            n == b@.len(),
            forall|k: int| 0 <= k < i ==> a@[k] == b@[k],
        decreases n - i,
    {
        if a.get_char(i) != b.get_char(i) {
            return false;
        }
        i = i + 1;
    }
    assert(a@ =~= b@);
    true
}

/// The pieces of `parts` joined by `sep`.
pub open spec fn joined(parts: Seq<Seq<char>>, sep: Seq<char>) -> Seq<char>
    decreases parts.len(),
{
    if parts.len() == 0 {
        Seq::empty()
    } else if parts.len() == 1 {
        parts[0]
    } else {
        joined(parts.drop_last(), sep) + sep + parts.last()
    }
}

/// The pieces of `parts` joined by `sep` (what `join` on a slice of strings gives).
pub fn join_strings(parts: &Vec<String>, sep: &str) -> (r: String)
    ensures
        r@ == joined(parts@.map_values(|p: String| p@), sep@),
{
    let ghost views = parts@.map_values(|p: String| p@);
    let mut r = String::new();
    let mut i: usize = 0;
    while i < parts.len()
        invariant
            i <= parts.len(),
            views == parts@.map_values(|p: String| p@),
            r@ == joined(views.take(i as int), sep@),
        decreases parts.len() - i,
    {
        assert(views.take(i + 1).drop_last() =~= views.take(i as int));
        assert(views.take(i + 1).last() == parts@[i as int]@);
        if i > 0 {
            r.append(sep);
        } else {
            assert(views.take(i + 1) =~= seq![parts@[i as int]@]);
        }
        r.append(parts[i].as_str());
        i = i + 1;
    }
    assert(views.take(parts.len() as int) =~= views);
    r
}

} // verus!
