//! Small text routines over Unicode scalar values: whitespace trimming, a
//! decimal `u16` reader, searching for a character, ASCII lowercasing.

use vstd::prelude::*;

verus! {

/// The Unicode `White_Space` property (what `char::is_whitespace` tests).
pub open spec fn is_white_space(c: char) -> bool {
    let u = c as u32;
    ||| 0x9 <= u <= 0xd
    ||| u == 0x20
    ||| u == 0x85
    ||| u == 0xa0
    ||| u == 0x1680
    ||| 0x2000 <= u <= 0x200a
    ||| u == 0x2028
    ||| u == 0x2029
    ||| u == 0x202f
    ||| u == 0x205f
    ||| u == 0x3000
}

/// `s` without its leading whitespace.
pub open spec fn trim_front(s: Seq<char>) -> Seq<char>
    decreases s.len(),
{
    if s.len() > 0 && is_white_space(s[0]) {
        trim_front(s.drop_first())
    } else {
        s
    }
}

/// `s` without its trailing whitespace.
pub open spec fn trim_back(s: Seq<char>) -> Seq<char>
    decreases s.len(),
{
    if s.len() > 0 && is_white_space(s.last()) {
        trim_back(s.drop_last())
    } else {
        s
    }
}

/// `s` without leading and trailing whitespace (what `str::trim` gives).
pub open spec fn trimmed(s: Seq<char>) -> Seq<char> {
    trim_back(trim_front(s))
}

/// An ASCII decimal digit.
pub open spec fn is_digit(c: char) -> bool {
    0x30 <= c as u32 <= 0x39
}

/// The value of a string of decimal digits.
pub open spec fn digits_value(d: Seq<char>) -> nat
    decreases d.len(),
{
    if d.len() == 0 {
        0
    } else {
        digits_value(d.drop_last()) * 10 + ((d.last() as u32) - 0x30) as nat
    }
}

/// The digits of an unsigned decimal numeral: `s` without one leading `+`.
pub open spec fn unsigned_digits(s: Seq<char>) -> Seq<char> {
    if s.len() > 0 && s[0] == '+' {
        s.drop_first()
    } else {
        s
    }
}

/// `s` read as a decimal `u16` (what `str::parse::<u16>` accepts): an optional
/// `+`, then one or more ASCII digits whose value fits in 16 bits.
pub open spec fn parse_u16(s: Seq<char>) -> Option<u16> {
    let d = unsigned_digits(s);
    if d.len() > 0 && (forall|i: int| 0 <= i < d.len() ==> is_digit(#[trigger] d[i])) && digits_value(d)
        <= 0xffff {
        Some(digits_value(d) as u16)
    } else {
        None
    }
}

/// The ASCII lowercase of `c` (other characters are unchanged).
pub open spec fn ascii_lower(c: char) -> char {
    if 0x41 <= c as u32 <= 0x5a {
        ((c as u32) + 0x20) as char
    } else {
        c
    }
}

/// Whether `c` is whitespace.
pub fn is_whitespace(c: char) -> (r: bool)
    ensures
        r == is_white_space(c),
{
    let u = c as u32;
    (0x9 <= u && u <= 0xd) || u == 0x20 || u == 0x85 || u == 0xa0 || u == 0x1680 || (0x2000 <= u && u
        <= 0x200a) || u == 0x2028 || u == 0x2029 || u == 0x202f || u == 0x205f || u == 0x3000
}

/// `s` with leading and trailing whitespace removed.
pub fn trim(s: &str) -> (r: &str)
    ensures
        r@ == trimmed(s@),
{
    let n = s.unicode_len();
    let mut i: usize = 0;
    assert(s@.subrange(0, n as int) =~= s@);
    while i < n && is_whitespace(s.get_char(i))
        invariant
            n == s@.len(),
            i <= n,
            trim_front(s@) == trim_front(s@.subrange(i as int, n as int)),
        decreases n - i,
    {
        assert(s@.subrange(i as int, n as int).drop_first() =~= s@.subrange(i + 1, n as int));
        i = i + 1;
    }
    assert(trim_front(s@) == s@.subrange(i as int, n as int));
    let mut j: usize = n;
    while j > i && is_whitespace(s.get_char(j - 1))
        invariant
            n == s@.len(),
            i <= j <= n,
            trim_back(s@.subrange(i as int, n as int)) == trim_back(s@.subrange(i as int, j as int)),
        decreases j - i,
    {
        assert(s@.subrange(i as int, j as int).drop_last() =~= s@.subrange(i as int, j - 1));
        j = j - 1;
    }
    s.substring_char(i, j)
}

/// `s` read as a decimal `u16`, as `str::parse::<u16>` reads it.
pub fn parse_u16_str(s: &str) -> (r: Option<u16>)
    ensures
        r == parse_u16(s@),
{
    let n = s.unicode_len();
    let ghost d = unsigned_digits(s@);
    let start: usize = if n > 0 && s.get_char(0) == '+' {
        1
    } else {
        0
    };
    assert(d =~= s@.subrange(start as int, n as int));
    if start == n {
        return None;
    }
    // `acc` is the value read so far, held at 65536 once it no longer fits.
    let mut acc: u32 = 0;
    let mut k: usize = start;
    while k < n
        invariant
            n == s@.len(),
            start <= k <= n,
            d == s@.subrange(start as int, n as int),
            d == unsigned_digits(s@),
            forall|i: int| 0 <= i < k - start ==> is_digit(#[trigger] d[i]),
            acc == if digits_value(d.subrange(0, k - start)) <= 0x10000 {
                digits_value(d.subrange(0, k - start))
            } else {
                0x10000
            },
        decreases n - k,
    {
        let c = s.get_char(k);
        let u = c as u32;
        if u < 0x30 || u > 0x39 {
            assert(d[k - start] == c);
            assert(!is_digit(d[k - start]));
            return None;
        }
        let ghost prev = d.subrange(0, k - start);
        let ghost next = d.subrange(0, k - start + 1);
        assert(next.drop_last() =~= prev);
        assert(next.last() == c);
        let v = acc * 10 + (u - 0x30);
        acc = if v > 0x10000 {
            0x10000
        } else {
            v
        };
        k = k + 1;
    }
    assert(d.subrange(0, n - start) =~= d);
    if acc > 0xffff {
        None
    } else {
        Some(acc as u16)
    }
}

/// The position of the first `c` in `s`, if any.
pub fn find_char(s: &str, c: char) -> (r: Option<usize>)
    ensures
        r matches Some(i) ==> s@.index_of_first(c) == Some(i as int) && i < s@.len(),
        r is None ==> s@.index_of_first(c) is None,
{
    let n = s.unicode_len();
    let mut i: usize = 0;
    while i < n
        invariant
            n == s@.len(),
            i <= n,
            forall|j: int| 0 <= j < i ==> s@[j] != c,
        decreases n - i,
    {
        if s.get_char(i) == c {
            proof {
                s@.index_of_first_ensures(c);
                let k = s@.index_of_first(c).unwrap();
                if k < i {
                    assert(s@[k] != c);
                }
                if k > i {
                    assert(s@[i as int] == c);
                }
            }
            return Some(i);
        }
        i = i + 1;
    }
    proof {
        s@.index_of_first_ensures(c);
        if s@.contains(c) {
            let k = choose|k: int| 0 <= k < s@.len() && s@[k] == c;
            assert(s@[k] != c);
        }
    }
    None
}

/// Appends `c` to `s` by calling `String::push`. Trusted, not proved: the
/// contract claims what std documents, that the string's characters become the
/// old ones followed by `c`.
#[verifier::external_body]
fn push_char(s: &mut String, c: char)
    ensures
        final(s)@ == old(s)@.push(c),
{
    s.push(c);
}

/// The ASCII lowercase of `s`.
pub fn ascii_lowercase(s: &str) -> (r: String)
    ensures
        r@ == s@.map_values(|c: char| ascii_lower(c)),
{
    let n = s.unicode_len();
    let mut out = String::new();
    let mut i: usize = 0;
    while i < n
        invariant
            n == s@.len(),
            i <= n,
            out@ == s@.subrange(0, i as int).map_values(|c: char| ascii_lower(c)),
        decreases n - i,
    {
        let c = s.get_char(i);
        let u = c as u32;
        let l = if 0x41 <= u && u <= 0x5a {
            ((u + 0x20) as u8) as char
        } else {
            c
        };
        assert(l == ascii_lower(c));
        push_char(&mut out, l);
        assert(s@.subrange(0, i + 1).map_values(|c: char| ascii_lower(c)) =~= s@.subrange(
            0,
            i as int,
        ).map_values(|c: char| ascii_lower(c)).push(ascii_lower(c)));
        i = i + 1;
    }
    assert(s@.subrange(0, n as int) =~= s@);
    out
}

/// The decimal digit for `d` in `0..10`.
pub open spec fn digit_char(d: nat) -> char {
    (0x30 + d) as char
}

/// The decimal numeral of `n`, without leading zeros (`"0"` for zero).
pub open spec fn decimal(n: nat) -> Seq<char>
    decreases n,
{
    if n < 10 {
        seq![digit_char(n)]
    } else {
        decimal(n / 10).push(digit_char(n % 10))
    }
}

/// `n` written in decimal.
pub fn decimal_string(n: u32) -> (r: String)
    ensures
        r@ == decimal(n as nat),
{
    // The digits, least significant first.
    let mut digits: Vec<char> = Vec::new();
    let mut m: u32 = n;
    assert(digits@.reverse() =~= Seq::<char>::empty());
    assert(decimal(n as nat) =~= decimal(m as nat) + digits@.reverse());
    while m >= 10
        invariant
            decimal(n as nat) == decimal(m as nat) + digits@.reverse(),
        decreases m,
    {
        let c = ((0x30 + m % 10) as u8) as char;
        assert(c == digit_char((m % 10) as nat));
        let ghost before = digits@;
        digits.push(c);
        assert(decimal(m as nat) == decimal((m / 10) as nat).push(c));
        assert(digits@.reverse() =~= seq![c] + before.reverse());
        assert(decimal(n as nat) =~= decimal((m / 10) as nat) + digits@.reverse());
        m = m / 10;
    }
    let c = ((0x30 + m) as u8) as char;
    assert(c == digit_char(m as nat));
    let ghost before = digits@;
    digits.push(c);
    assert(digits@.reverse() =~= seq![c] + before.reverse());
    assert(decimal(n as nat) =~= digits@.reverse());
    let mut out = String::new();
    let mut k: usize = digits.len();
    while k > 0
        invariant
            k <= digits@.len(),
            out@ == digits@.reverse().take(digits@.len() - k),
        decreases k,
    {
        k = k - 1;
        push_char(&mut out, digits[k]);
        assert(digits@.reverse().take(digits@.len() - k) =~= digits@.reverse().take(digits@.len() - k - 1).push(
            digits@[k as int],
        ));
    }
    assert(digits@.reverse().take(digits@.len() as int) =~= digits@.reverse());
    out
}

} // verus!
