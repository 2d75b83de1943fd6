//! Text handling for request paths: whitespace trimming, reading an unsigned
//! 16-bit number, and the decimal rendering of a number.

use vstd::prelude::*;
use vstd::string::*;
use vstd::utf8::is_ascii_chars;

verus! {

/// Whether `c` has the Unicode property `White_Space`.
pub open spec fn is_whitespace(c: char) -> bool {
    ||| '\u{9}' <= c <= '\u{d}'
    ||| c == ' '
    ||| c == '\u{85}'
    ||| c == '\u{a0}'
    ||| c == '\u{1680}'
    ||| '\u{2000}' <= c <= '\u{200a}'
    ||| c == '\u{2028}'
    ||| c == '\u{2029}'
    ||| c == '\u{202f}'
    ||| c == '\u{205f}'
    ||| c == '\u{3000}'
}

/// `s` without its leading whitespace.
pub open spec fn trim_start(s: Seq<char>) -> Seq<char>
    decreases s.len(),
{
    if s.len() > 0 && is_whitespace(s[0]) {
        trim_start(s.skip(1))
    } else {
        s
    }
}

/// `s` without its trailing whitespace.
pub open spec fn trim_end(s: Seq<char>) -> Seq<char>
    decreases s.len(),
{
    if s.len() > 0 && is_whitespace(s.last()) {
        trim_end(s.drop_last())
    } else {
        s
    }
}

/// `s` without its leading and trailing whitespace.
pub open spec fn trimmed(s: Seq<char>) -> Seq<char> {
    trim_end(trim_start(s))
}

/// Whether `c` is one of the ASCII digits `0` to `9`.
pub open spec fn is_digit(c: char) -> bool {
    '0' <= c <= '9'
}

/// The number that the ASCII digit `c` stands for.
pub open spec fn digit_value(c: char) -> nat {
    (c as int - '0' as int) as nat
}

/// Whether every character of `s` is an ASCII digit.
pub open spec fn all_digits(s: Seq<char>) -> bool {
    forall|i: int| 0 <= i < s.len() ==> is_digit(#[trigger] s[i])
}

/// The number that the digit string `s` denotes in base ten.
pub open spec fn digits_value(s: Seq<char>) -> nat
    decreases s.len(),
{
    if s.len() == 0 {
        0
    } else {
        digits_value(s.drop_last()) * 10 + digit_value(s.last())
    }
}

/// `s` without one leading plus sign, if it has one.
pub open spec fn unsigned_part(s: Seq<char>) -> Seq<char> {
    if s.len() > 0 && s[0] == '+' {
        s.skip(1)
    } else {
        s
    }
}

/// The unsigned 16-bit number written in `s`: an optional plus sign, then one
/// or more ASCII digits whose value is at most 65535. Anything else is no
/// number.
pub open spec fn parse_u16_spec(s: Seq<char>) -> Option<u16> {
    let d = unsigned_part(s);
    if d.len() > 0 && all_digits(d) && digits_value(d) <= 65535 {
        Some(digits_value(d) as u16)
    } else {
        None
    }
}

/// The character for the digit `d`, which is below ten.
pub open spec fn digit_char(d: nat) -> char {
    (('0' as nat + d) as u8) as char
}

/// The decimal rendering of `n`, without sign or leading zeros.
pub open spec fn decimal(n: nat) -> Seq<char>
    decreases n,
{
    if n < 10 {
        seq![digit_char(n)]
    } else {
        decimal(n / 10).push(digit_char(n % 10))
    }
}

/// Decides whether `c` is whitespace.
pub fn char_is_whitespace(c: char) -> (b: bool)
    ensures
        b == is_whitespace(c),
{
    let u: u32 = c as u32;
    (0x09 <= u && u <= 0x0D) || u == 0x20 || u == 0x85 || u == 0xA0 || u == 0x1680 || (0x2000 <= u
        && u <= 0x200A) || u == 0x2028 || u == 0x2029 || u == 0x202F || u == 0x205F || u == 0x3000
}

/// The character of `s` at `i`. Where the caller has found `s` to be ASCII,
/// the character is read off the byte at `i` without walking the text.
fn char_at(s: &str, ascii: bool, i: usize) -> (c: char)
    requires
        ascii ==> s.is_ascii(),
        i < s@.len(),
    ensures
        c == s@[i as int],
{
    if ascii {
        let b: u8 = s.get_ascii(i);
        proof {
            lemma_ascii_byte(s@[i as int], b);
        }
        b as char
    } else {
        s.get_char(i)
    }
}

/// Returns the part of `s` between its leading and its trailing whitespace.
pub fn trim(s: &str) -> (r: &str)
    ensures
        r@ == trimmed(s@),
{
    let n: usize = s.unicode_len();
    let ascii: bool = s.is_ascii();
    let mut start: usize = 0;
    let mut scanning = true;
    proof {
        assert(s@.subrange(0, n as int) =~= s@);
    }
    while scanning
        invariant
            ascii ==> s.is_ascii(),
            n == s@.len(),
            start <= n,
            trim_start(s@) == trim_start(s@.subrange(start as int, n as int)),
            !scanning ==> (start == n || !is_whitespace(s@[start as int])),
        decreases (n - start) + (if scanning { 1int } else { 0int }),
    {
        if start < n && char_is_whitespace(char_at(s, ascii, start)) {
            proof {
                assert(s@.subrange(start as int, n as int).skip(1) =~= s@.subrange(
                    start as int + 1,
                    n as int,
                ));
            }
            start += 1;
        } else {
            scanning = false;
        }
    }
    let ghost body = s@.subrange(start as int, n as int);
    assert(trim_start(s@) == body);
    let mut end: usize = n;
    scanning = true;
    while scanning
        invariant
            ascii ==> s.is_ascii(),
            n == s@.len(),
            start <= end <= n,
            body == s@.subrange(start as int, n as int),
            trim_end(body) == trim_end(s@.subrange(start as int, end as int)),
            !scanning ==> (end == start || !is_whitespace(s@[end as int - 1])),
        decreases (end - start) + (if scanning { 1int } else { 0int }),
    {
        if start < end && char_is_whitespace(char_at(s, ascii, end - 1)) {
            proof {
                assert(s@.subrange(start as int, end as int).drop_last() =~= s@.subrange(
                    start as int,
                    end as int - 1,
                ));
            }
            end -= 1;
        } else {
            scanning = false;
        }
    }
    s.substring_char(start, end)
}

/// Decides whether two texts are the same, character by character.
pub fn same_text(a: &str, b: &str) -> (r: bool)
    ensures
        r == (a@ == b@),
{
    let n: usize = a.unicode_len();
    if n != b.unicode_len() {
        return false;
    }
    let a_ascii: bool = a.is_ascii();
    let b_ascii: bool = b.is_ascii();
    let mut i: usize = 0;
    while i < n
        invariant
            a_ascii ==> a.is_ascii(),
            b_ascii ==> b.is_ascii(),
            n == a@.len(),
            n == b@.len(),
            i <= n,
            forall|k: int| 0 <= k < i ==> a@[k] == b@[k],
        decreases n - i,
    {
        if char_at(a, a_ascii, i) != char_at(b, b_ascii, i) {
            return false;
        }
        i += 1;
    }
    proof {
        assert(a@ =~= b@);
    }
    true
}

/// A prefix of a digit string denotes no more than the whole string.
pub proof fn lemma_prefix_value(s: Seq<char>, k: int)
    requires
        0 <= k <= s.len(),
    ensures
        digits_value(s.take(k)) <= digits_value(s),
    decreases s.len(),
{
    if k == s.len() {
        assert(s.take(k) =~= s);
    } else {
        lemma_prefix_value(s.drop_last(), k);
        assert(s.drop_last().take(k) =~= s.take(k));
    }
}

/// An ASCII character and the byte that stands for it are the same number.
proof fn lemma_ascii_byte(c: char, b: u8)
    requires
        '\0' <= c <= '\u{7f}',
        c as u8 == b,
    ensures
        c as int == b as int,
        is_digit(c) <==> 0x30 <= b <= 0x39,
        is_digit(c) ==> digit_value(c) == b - 0x30,
        c == '+' <==> b == 0x2B,
{
}

/// A digit string of digits only, with one more digit at its end, denotes
/// ten times as much and that digit.
proof fn lemma_value_step(s: Seq<char>)
    requires
        s.len() > 0,
        all_digits(s.drop_last()),
        is_digit(s.last()),
    ensures
        all_digits(s),
        digits_value(s) == digits_value(s.drop_last()) * 10 + digit_value(s.last()),
{
    assert forall|i: int| 0 <= i < s.len() implies is_digit(#[trigger] s[i]) by {
        if i < s.len() - 1 {
            assert(s.drop_last()[i] == s[i]);
        }
    }
}

/// A text that is a number holds ASCII characters only.
pub proof fn lemma_number_is_ascii(s: Seq<char>)
    requires
        parse_u16_spec(s) is Some,
    ensures
        is_ascii_chars(s),
{
    let d = unsigned_part(s);
    assert forall|i: int| 0 <= i < s.len() implies '\0' <= #[trigger] s[i] <= '\u{7f}' by {
        if s[0] == '+' {
            if i > 0 {
                assert(is_digit(d[i - 1]));
            }
        } else {
            assert(is_digit(d[i]));
        }
    }
}

/// Reads `s` as an unsigned 16-bit number, and returns `None` where it is not
/// one.
pub fn parse_u16(s: &str) -> (r: Option<u16>)
    ensures
        r == parse_u16_spec(s@),
{
    if !s.is_ascii() {
        proof {
            if parse_u16_spec(s@) is Some {
                lemma_number_is_ascii(s@);
            }
        }
        return None;
    }
    let n: usize = s.unicode_len();
    if n == 0 {
        return None;
    }
    let sign: u8 = s.get_ascii(0);
    proof {
        lemma_ascii_byte(s@[0], sign);
    }
    let first: usize = if sign == 0x2B {
        1
    } else {
        0
    };
    if first == n {
        return None;
    }
    let ghost d = unsigned_part(s@);
    assert(d == s@.skip(first as int));
    let mut i: usize = first;
    let mut acc: u32 = 0;
    assert(d.take(0) =~= Seq::<char>::empty());
    while i < n
        invariant
            s.is_ascii(),
            n == s@.len(),
            first <= i <= n,
            first < n,
            d == s@.skip(first as int),
            d == unsigned_part(s@),
            all_digits(d.take(i - first)),
            acc == digits_value(d.take(i - first)),
            acc <= 65535,
        decreases n - i,
    {
        let b: u8 = s.get_ascii(i);
        let ghost c = d[i - first];
        proof {
            assert(c == s@[i as int]);
            lemma_ascii_byte(c, b);
        }
        if b < 0x30 || b > 0x39 {
            assert(!is_digit(d[i - first]));
            return None;
        }
        proof {
            lemma_value_step(d.take(i + 1 - first));
            assert(d.take(i + 1 - first).drop_last() =~= d.take(i - first));
        }
        acc = acc * 10 + (b - 0x30) as u32;
        if acc > 65535 {
            proof {
                lemma_prefix_value(d, i + 1 - first);
            }
            return None;
        }
        i += 1;
    }
    proof {
        assert(d.take(n - first) =~= d);
    }
    Some(acc as u16)
}

/// What the decimal rendering of a number is made of: digits only, at least
/// one, and they denote the number.
pub proof fn lemma_decimal_digits(n: nat)
    ensures
        decimal(n).len() > 0,
        all_digits(decimal(n)),
        digits_value(decimal(n)) == n,
    decreases n,
{
    if n < 10 {
        let s = decimal(n);
        assert(s.drop_last() =~= Seq::<char>::empty());
        assert(digits_value(s.drop_last()) == 0);
        assert(is_digit(digit_char(n)));
        assert(digit_value(digit_char(n)) == n);
    } else {
        lemma_decimal_digits(n / 10);
        let s = decimal(n);
        assert(s.drop_last() =~= decimal(n / 10));
        assert(is_digit(digit_char(n % 10)));
        assert(digit_value(digit_char(n % 10)) == n % 10);
    }
}

/// Trimming leaves alone a text that neither starts nor ends with whitespace.
pub proof fn lemma_trimmed_fixed(s: Seq<char>)
    requires
        s.len() > 0 ==> !is_whitespace(s[0]) && !is_whitespace(s.last()),
    ensures
        trimmed(s) == s,
{
}

/// Reading the decimal rendering of a number gives the number back, and
/// trimming does not change the rendering.
pub proof fn lemma_decimal_round_trip(n: u16)
    ensures
        trimmed(decimal(n as nat)) == decimal(n as nat),
        parse_u16_spec(decimal(n as nat)) == Some(n),
{
    lemma_decimal_digits(n as nat);
    let s = decimal(n as nat);
    assert(is_digit(s[0]));
    assert(is_digit(s.last()));
    lemma_trimmed_fixed(s);
}

} // verus!
