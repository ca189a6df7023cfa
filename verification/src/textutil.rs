//! Small text helpers shared across the crate: character/string conversion,
//! hexadecimal and decimal rendering, and single-character replacement.

use vstd::prelude::*;

verus! {

/// Relies on str::chars and Iterator::collect: the characters of a string,
/// in order, as a vector.
#[verifier::external_body]
pub fn str_to_chars(s: &str) -> (r: Vec<char>)
    ensures
        r@ == s@,
{
    s.chars().collect()
}

/// Relies on String's FromIterator impl: the string holding exactly the
/// given characters, in order.
#[verifier::external_body]
pub fn chars_to_string(v: &Vec<char>) -> (r: String)
    ensures
        r@ == v@,
{
    v.iter().collect()
}

/// Relies on str's PartialEq impl: two string slices are equal exactly when
/// their characters are.
#[verifier::external_body]
pub fn str_eq(a: &str, b: &str) -> (r: bool)
    ensures
        r == (a@ == b@),
{
    a == b
}

/// The lowercase hexadecimal digit of a value below 16.
pub open spec fn spec_hex_digit(n: int) -> char {
    if n == 0 {
        '0'
    } else if n == 1 {
        '1'
    } else if n == 2 {
        '2'
    } else if n == 3 {
        '3'
    } else if n == 4 {
        '4'
    } else if n == 5 {
        '5'
    } else if n == 6 {
        '6'
    } else if n == 7 {
        '7'
    } else if n == 8 {
        '8'
    } else if n == 9 {
        '9'
    } else if n == 10 {
        'a'
    } else if n == 11 {
        'b'
    } else if n == 12 {
        'c'
    } else if n == 13 {
        'd'
    } else if n == 14 {
        'e'
    } else {
        'f'
    }
}

/// The lowercase hexadecimal rendering of a byte sequence: two digits per
/// byte, high digit first.
pub open spec fn spec_hex(bytes: Seq<u8>) -> Seq<char>
    decreases bytes.len(),
{
    if bytes.len() == 0 {
        Seq::<char>::empty()
    } else {
        spec_hex(bytes.drop_last()) + seq![
            spec_hex_digit(bytes.last() as int / 16),
            spec_hex_digit(bytes.last() as int % 16),
        ]
    }
}

pub fn hex_digit(n: u8) -> (r: char)
    requires
        n < 16,
    ensures
        r == spec_hex_digit(n as int),
{
    match n {
        0 => '0',
        1 => '1',
        2 => '2',
        3 => '3',
        4 => '4',
        5 => '5',
        6 => '6',
        7 => '7',
        8 => '8',
        9 => '9',
        10 => 'a',
        11 => 'b',
        12 => 'c',
        13 => 'd',
        14 => 'e',
        _ => 'f',
    }
}

/// Renders a byte slice as lowercase hexadecimal.
pub fn hex_encode(bytes: &[u8]) -> (r: String)
    ensures
        r@ == spec_hex(bytes@),
{
    let mut out: Vec<char> = Vec::new();
    let n = bytes.len();
    let mut i: usize = 0;
    while i < n
        invariant
            n == bytes@.len(),
            0 <= i <= n,
            out@ == spec_hex(bytes@.subrange(0, i as int)),
        decreases n - i,
    {
        let b = bytes[i];
        out.push(hex_digit(b / 16));
        out.push(hex_digit(b % 16));
        proof {
            let pre = bytes@.subrange(0, i + 1 as int);
            assert(pre.drop_last() =~= bytes@.subrange(0, i as int));
            assert(pre.last() == bytes@[i as int]);
        }
        i = i + 1;
    }
    proof {
        assert(bytes@.subrange(0, bytes@.len() as int) =~= bytes@);
    }
    chars_to_string(&out)
}

/// The decimal digit character of a value below 10.
pub open spec fn spec_dec_digit(n: int) -> char {
    spec_hex_digit(n)
}

/// The decimal rendering of a natural number, without leading zeros
/// (a single zero for 0).
pub open spec fn spec_dec(n: int) -> Seq<char>
    decreases n,
{
    if n <= 0 {
        seq!['0']
    } else if n < 10 {
        seq![spec_dec_digit(n)]
    } else {
        spec_dec(n / 10) + seq![spec_dec_digit(n % 10)]
    }
}

/// Renders an unsigned 64-bit number in decimal.
pub fn u64_string(n: u64) -> (r: String)
    ensures
        r@ == spec_dec(n as int),
{
    if n == 0 {
        let mut out: Vec<char> = Vec::new();
        out.push('0');
        proof {
            assert(out@ =~= spec_dec(0));
        }
        return chars_to_string(&out);
    }
    let mut digits: Vec<char> = Vec::new();
    let mut rest: u64 = n;
    while rest > 0
        invariant
            rest >= 0,
            n > 0,
            rest == n ==> digits@.len() == 0,
            rest > 0 ==> spec_dec(n as int) == spec_dec(rest as int) + digits@.reverse(),
            rest == 0 ==> spec_dec(n as int) == digits@.reverse(),
        decreases rest,
    {
        let d = (rest % 10) as u8;
        let next = rest / 10;
        digits.push(hex_digit(d));
        proof {
            let now = digits@;
            let before = now.drop_last();
            assert(now.reverse() =~= seq![spec_dec_digit(rest as int % 10)] + before.reverse());
            if next > 0 {
                assert(spec_dec(rest as int) == spec_dec(rest as int / 10) + seq![
                    spec_dec_digit(rest as int % 10),
                ]);
                assert(spec_dec(rest as int) + before.reverse() =~= spec_dec(next as int)
                    + now.reverse());
            } else {
                assert(rest < 10);
                assert(spec_dec(rest as int) =~= seq![spec_dec_digit(rest as int % 10)]);
                assert(spec_dec(rest as int) + before.reverse() =~= now.reverse());
            }
        }
        rest = next;
    }
    let mut out: Vec<char> = Vec::new();
    let total = digits.len();
    let mut i: usize = 0;
    while i < total
        invariant
            total == digits@.len(),
            0 <= i <= total,
            out@ == digits@.reverse().subrange(0, i as int),
        decreases total - i,
    {
        proof {
            assert(digits@.reverse()[i as int] == digits@[total - 1 - i as int]);
            assert(digits@.reverse().subrange(0, i + 1 as int) =~= digits@.reverse().subrange(
                0,
                i as int,
            ) + seq![digits@.reverse()[i as int]]);
        }
        out.push(digits[total - 1 - i]);
        i = i + 1;
    }
    proof {
        assert(out@ =~= digits@.reverse());
    }
    chars_to_string(&out)
}

/// Appends the characters of a string slice.
pub fn push_chars(out: &mut Vec<char>, s: &str)
    ensures
        final(out)@ == old(out)@ + s@,
{
    let cs = str_to_chars(s);
    let n = cs.len();
    let mut i: usize = 0;
    while i < n
        invariant
            n == cs@.len(),
            cs@ == s@,
            0 <= i <= n,
            out@ == old(out)@ + cs@.subrange(0, i as int),
        decreases n - i,
    {
        out.push(cs[i]);
        proof {
            assert(old(out)@ + cs@.subrange(0, i + 1) =~= (old(out)@ + cs@.subrange(0, i as int)).push(
                cs@[i as int],
            ));
        }
        i = i + 1;
    }
    proof {
        assert(cs@.subrange(0, cs@.len() as int) =~= cs@);
    }
}

/// The decimal rendering of a signed number: a minus sign and the
/// magnitude.
pub open spec fn spec_dec_i64(n: int) -> Seq<char> {
    if n < 0 {
        seq!['-'] + spec_dec(-n)
    } else {
        spec_dec(n)
    }
}

/// Renders a signed 64-bit number in decimal.
pub fn i64_string(n: i64) -> (r: String)
    ensures
        r@ == spec_dec_i64(n as int),
{
    if n >= 0 {
        u64_string(n as u64)
    } else {
        let magnitude: u64 = if n == i64::MIN {
            9223372036854775808u64
        } else {
            (-n) as u64
        };
        let digits = u64_string(magnitude);
        let r = "-".to_owned().concat(digits.as_str());
        proof {
            reveal_strlit("-");
            assert("-"@ =~= seq!['-']);
            assert(r@ =~= spec_dec_i64(n as int));
        }
        r
    }
}

/// The sequence with every occurrence of one character replaced by a
/// replacement sequence.

pub open spec fn spec_replace_char(s: Seq<char>, c: char, with: Seq<char>) -> Seq<char>
    decreases s.len(),
{
    if s.len() == 0 {
        Seq::<char>::empty()
    } else {
        spec_replace_char(s.drop_last(), c, with) + (if s.last() == c {
            with
        } else {
            seq![s.last()]
        })
    }
}

/// Replaces every occurrence of a single character by a string.
pub fn replace_char(s: &str, c: char, with: &str) -> (r: String)
    ensures
        r@ == spec_replace_char(s@, c, with@),
{
    let chars = str_to_chars(s);
    let rep = str_to_chars(with);
    let mut out: Vec<char> = Vec::new();
    let n = chars.len();
    let mut i: usize = 0;
    while i < n
        invariant
            n == chars@.len(),
            chars@ == s@,
            rep@ == with@,
            0 <= i <= n,
            out@ == spec_replace_char(s@.subrange(0, i as int), c, with@),
        decreases n - i,
    {
        proof {
            let pre = s@.subrange(0, i + 1 as int);
            assert(pre.drop_last() =~= s@.subrange(0, i as int));
            assert(pre.last() == s@[i as int]);
        }
        let ch = chars[i];
        if ch == c {
            let mut j: usize = 0;
            let m = rep.len();
            let ghost base = out@;
            while j < m
                invariant
                    m == rep@.len(),
                    0 <= j <= m,
                    out@ == base + rep@.subrange(0, j as int),
                decreases m - j,
            {
                proof {
                    assert(rep@.subrange(0, j + 1 as int) =~= rep@.subrange(0, j as int) + seq![
                        rep@[j as int],
                    ]);
                }
                out.push(rep[j]);
                j = j + 1;
            }
            proof {
                assert(rep@.subrange(0, m as int) =~= rep@);
            }
        } else {
            out.push(ch);
        }
        i = i + 1;
    }
    proof {
        assert(s@.subrange(0, s@.len() as int) =~= s@);
    }
    chars_to_string(&out)
}

} // verus!
