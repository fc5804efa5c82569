//! Decimal and hexadecimal digit strings: their values, their
//! canonical forms, and the round trips between the two. The address
//! grammar is built on these.

use vstd::prelude::*;

verus! {

/// A decimal digit.
pub open spec fn is_dec_digit(c: char) -> bool {
    48 <= c as u32 <= 57
}

/// The value of a decimal digit.
pub open spec fn dec_digit_val(c: char) -> int {
    c as u32 - 48
}

/// All characters are decimal digits.
pub open spec fn all_dec_digits(s: Seq<char>) -> bool {
    forall|i: int| 0 <= i < s.len() ==> is_dec_digit(s[i])
}

/// The value of a decimal digit string, most significant digit first.
pub open spec fn dec_value(s: Seq<char>) -> int
    decreases s.len(),
{
    if s.len() == 0 {
        0
    } else {
        dec_value(s.drop_last()) * 10 + dec_digit_val(s.last())
    }
}

/// A usable decimal group: non-empty, all digits, at most `maxlen`
/// digits long.
pub open spec fn dec_group_ok(s: Seq<char>, maxlen: int) -> bool {
    1 <= s.len() <= maxlen && all_dec_digits(s)
}

/// Ten to the `k`.
pub open spec fn pow10(k: nat) -> int
    decreases k,
{
    if k == 0 {
        1
    } else {
        10 * pow10((k - 1) as nat)
    }
}

/// The value of a digit string is below ten to its length.
pub proof fn lemma_dec_value_bound(s: Seq<char>)
    requires
        all_dec_digits(s),
    ensures
        0 <= dec_value(s) < pow10(s.len()),
    decreases s.len(),
{
    if s.len() > 0 {
        lemma_dec_value_bound(s.drop_last());
    }
}

/// The character of a decimal digit.
pub open spec fn dec_digit_char(n: int) -> char {
    if n == 0 {
        '0'
    } else if n == 1 {
        '1'
    } else if n == 2 {
        '2'
    } else if n == 3 {
        '3'
    } else if n == 4 {
        '4'
    } else if n == 5 {
        '5'
    } else if n == 6 {
        '6'
    } else if n == 7 {
        '7'
    } else if n == 8 {
        '8'
    } else {
        '9'
    }
}

/// The canonical decimal form of a number: no leading zeros, except
/// that zero itself is "0".
pub open spec fn dec_repr(n: int) -> Seq<char>
    decreases n,
{
    if n < 10 {
        seq![dec_digit_char(n)]
    } else {
        dec_repr(n / 10).push(dec_digit_char(n % 10))
    }
}

/// The canonical decimal form consists of digits, and its length fits
/// the number's size.
pub proof fn lemma_dec_repr_digits(n: int)
    requires
        0 <= n,
    ensures
        all_dec_digits(dec_repr(n)),
        dec_repr(n).len() >= 1,
        n < 10 ==> dec_repr(n).len() == 1,
        n < 100 ==> dec_repr(n).len() <= 2,
        n < 1000 ==> dec_repr(n).len() <= 3,
        n < 10000 ==> dec_repr(n).len() <= 4,
        n < 100000 ==> dec_repr(n).len() <= 5,
    decreases n,
{
    if n >= 10 {
        lemma_dec_repr_digits(n / 10);
    }
}

/// Parsing the canonical decimal form gives the number back.
pub proof fn lemma_dec_roundtrip(n: int)
    requires
        0 <= n,
    ensures
        dec_value(dec_repr(n)) == n,
    decreases n,
{
    if n < 10 {
        assert(dec_repr(n).drop_last() =~= Seq::<char>::empty());
        assert(dec_value(Seq::<char>::empty()) == 0);
        assert(dec_digit_val(dec_digit_char(n)) == n);
        assert(dec_value(dec_repr(n)) == dec_value(dec_repr(n).drop_last()) * 10 + dec_digit_val(
            dec_repr(n).last(),
        ));
    } else {
        lemma_dec_roundtrip(n / 10);
        assert(dec_repr(n).drop_last() =~= dec_repr(n / 10));
        assert(dec_repr(n).last() == dec_digit_char(n % 10));
        assert(dec_digit_val(dec_digit_char(n % 10)) == n % 10);
    }
}

/// A hexadecimal digit, in either case.
pub open spec fn is_hex_digit(c: char) -> bool {
    48 <= c as u32 <= 57 || 97 <= c as u32 <= 102 || 65 <= c as u32 <= 70
}

/// The value of a hexadecimal digit.
pub open spec fn hex_digit_val(c: char) -> int {
    if 48 <= c as u32 <= 57 {
        c as u32 - 48
    } else if 97 <= c as u32 <= 102 {
        c as u32 - 87
    } else {
        c as u32 - 55
    }
}

/// All characters are hexadecimal digits.
pub open spec fn all_hex_digits(s: Seq<char>) -> bool {
    forall|i: int| 0 <= i < s.len() ==> is_hex_digit(s[i])
}

/// The value of a hexadecimal digit string, most significant first.
pub open spec fn hex_value(s: Seq<char>) -> int
    decreases s.len(),
{
    if s.len() == 0 {
        0
    } else {
        hex_value(s.drop_last()) * 16 + hex_digit_val(s.last())
    }
}

/// A usable hexadecimal group: non-empty, all hex digits, at most
/// `maxlen` digits long.
pub open spec fn hex_group_ok(s: Seq<char>, maxlen: int) -> bool {
    1 <= s.len() <= maxlen && all_hex_digits(s)
}

/// Sixteen to the `k`.
pub open spec fn pow16(k: nat) -> int
    decreases k,
{
    if k == 0 {
        1
    } else {
        16 * pow16((k - 1) as nat)
    }
}

/// The value of a hex digit string is below sixteen to its length.
pub proof fn lemma_hex_value_bound(s: Seq<char>)
    requires
        all_hex_digits(s),
    ensures
        0 <= hex_value(s) < pow16(s.len()),
    decreases s.len(),
{
    if s.len() > 0 {
        lemma_hex_value_bound(s.drop_last());
    }
}

/// The character of a hexadecimal digit, lower case.
pub open spec fn hex_digit_char(n: int) -> char {
    if n < 10 {
        dec_digit_char(n)
    } else if n == 10 {
        'a'
    } else if n == 11 {
        'b'
    } else if n == 12 {
        'c'
    } else if n == 13 {
        'd'
    } else if n == 14 {
        'e'
    } else {
        'f'
    }
}

/// The fixed-width, four-digit lower-case hexadecimal form of a
/// sixteen-bit group.
pub open spec fn hex_repr4(g: int) -> Seq<char> {
    seq![
        hex_digit_char(g / 4096 % 16),
        hex_digit_char(g / 256 % 16),
        hex_digit_char(g / 16 % 16),
        hex_digit_char(g % 16),
    ]
}

/// The four-digit hexadecimal form consists of hex digits, and parsing
/// it gives the group back.
pub proof fn lemma_hex4_roundtrip(g: int)
    requires
        0 <= g < 65536,
    ensures
        all_hex_digits(hex_repr4(g)),
        hex_repr4(g).len() == 4,
        hex_value(hex_repr4(g)) == g,
{
    let s = hex_repr4(g);
    assert(s.drop_last() =~= seq![
        hex_digit_char(g / 4096 % 16),
        hex_digit_char(g / 256 % 16),
        hex_digit_char(g / 16 % 16),
    ]);
    assert(s.drop_last().drop_last() =~= seq![
        hex_digit_char(g / 4096 % 16),
        hex_digit_char(g / 256 % 16),
    ]);
    assert(s.drop_last().drop_last().drop_last() =~= seq![hex_digit_char(g / 4096 % 16)]);
    assert(s.drop_last().drop_last().drop_last().drop_last() =~= Seq::<char>::empty());
    assert(hex_value(Seq::<char>::empty()) == 0);
    assert(hex_value(s) == hex_value(s.drop_last()) * 16 + hex_digit_val(s.last()));
    assert(hex_value(s.drop_last()) == hex_value(s.drop_last().drop_last()) * 16 + hex_digit_val(
        s.drop_last().last(),
    ));
    assert(hex_value(s.drop_last().drop_last()) == hex_value(
        s.drop_last().drop_last().drop_last(),
    ) * 16 + hex_digit_val(s.drop_last().drop_last().last()));
    assert(hex_value(s.drop_last().drop_last().drop_last()) == hex_value(
        s.drop_last().drop_last().drop_last().drop_last(),
    ) * 16 + hex_digit_val(s.drop_last().drop_last().drop_last().last()));
    assert(s.last() == hex_digit_char(g % 16));
    assert(s.drop_last().last() == hex_digit_char(g / 16 % 16));
    assert(s.drop_last().drop_last().last() == hex_digit_char(g / 256 % 16));
    assert(s.drop_last().drop_last().drop_last().last() == hex_digit_char(g / 4096 % 16));
    assert(g / 4096 % 16 == g / 4096);
    assert(hex_digit_val(hex_digit_char(g / 4096 % 16)) == g / 4096 % 16);
    assert(hex_digit_val(hex_digit_char(g / 256 % 16)) == g / 256 % 16);
    assert(hex_digit_val(hex_digit_char(g / 16 % 16)) == g / 16 % 16);
    assert(hex_digit_val(hex_digit_char(g % 16)) == g % 16);
    assert(g == ((g / 4096) * 16 + g / 256 % 16) * 256 + (g / 16 % 16) * 16 + g % 16)
        by (nonlinear_arith)
        requires
            0 <= g < 65536,
    ;
}

/// The decimal digit as a character.
pub fn dec_digit_exec(d: u32) -> (c: char)
    requires
        d < 10,
    ensures
        c == dec_digit_char(d as int),
{
    match d {
        0 => '0',
        1 => '1',
        2 => '2',
        3 => '3',
        4 => '4',
        5 => '5',
        6 => '6',
        7 => '7',
        8 => '8',
        _ => '9',
    }
}

/// The hexadecimal digit as a character, lower case.
pub fn hex_digit_exec(d: u32) -> (c: char)
    requires
        d < 16,
    ensures
        c == hex_digit_char(d as int),
{
    if d < 10 {
        dec_digit_exec(d)
    } else {
        match d {
            10 => 'a',
            11 => 'b',
            12 => 'c',
            13 => 'd',
            14 => 'e',
            _ => 'f',
        }
    }
}

/// Reads a decimal group of at most `maxlen` digits from a character
/// range.
pub fn parse_dec_range(v: &Vec<char>, lo: usize, hi: usize, maxlen: usize) -> (r: Option<u32>)
    requires
        lo <= hi <= v@.len(),
        maxlen <= 5,
    ensures
        (r is Some) == dec_group_ok(v@.subrange(lo as int, hi as int), maxlen as int),
        r is Some ==> r->0 == dec_value(v@.subrange(lo as int, hi as int)),
{
    let ghost s = v@.subrange(lo as int, hi as int);
    if hi - lo < 1 || hi - lo > maxlen {
        return Option::None;
    }
    let mut acc: u32 = 0;
    let mut i: usize = lo;
    while i < hi
        invariant
            lo <= i <= hi <= v@.len(),
            hi - lo <= maxlen <= 5,
            s == v@.subrange(lo as int, hi as int),
            all_dec_digits(s.subrange(0, i - lo)),
            acc == dec_value(s.subrange(0, i - lo)),
            acc < 100000,
        decreases hi - i,
    {
        let c = v[i];
        let u = c as u32;
        if u < 48 || u > 57 {
            proof {
                assert(s[i - lo] == c);
                assert(!all_dec_digits(s));
            }
            return Option::None;
        }
        proof {
            assert(s.subrange(0, i + 1 - lo).drop_last() =~= s.subrange(0, i - lo));
            assert(s.subrange(0, i + 1 - lo).last() == c);
            lemma_dec_value_bound(s.subrange(0, i - lo));
            reveal_with_fuel(pow10, 5);
            assert(pow10(4) == 10000);
            assert(s.subrange(0, i - lo).len() <= 4 ==> dec_value(s.subrange(0, i - lo))
                < 10000) by {
                if s.subrange(0, i - lo).len() <= 4 {
                    assert(pow10(s.subrange(0, i - lo).len()) <= pow10(4)) by {
                        lemma_pow10_increases(s.subrange(0, i - lo).len(), 4);
                    }
                }
            }
        }
        acc = acc * 10 + (u - 48);
        i = i + 1;
    }
    proof {
        assert(s.subrange(0, s.len() as int) =~= s);
    }
    Option::Some(acc)
}

/// Ten to the `k` does not shrink as `k` grows.
pub proof fn lemma_pow10_increases(j: nat, k: nat)
    requires
        j <= k,
    ensures
        pow10(j) <= pow10(k),
    decreases k,
{
    if j < k {
        lemma_pow10_increases(j, (k - 1) as nat);
        lemma_pow10_positive((k - 1) as nat);
    }
}

/// Ten to the `k` is positive.
pub proof fn lemma_pow10_positive(k: nat)
    ensures
        pow10(k) >= 1,
    decreases k,
{
    if k > 0 {
        lemma_pow10_positive((k - 1) as nat);
    }
}

/// Reads a hexadecimal group of at most four digits from a character
/// range.
pub fn parse_hex_range(v: &Vec<char>, lo: usize, hi: usize) -> (r: Option<u32>)
    requires
        lo <= hi <= v@.len(),
    ensures
        (r is Some) == hex_group_ok(v@.subrange(lo as int, hi as int), 4),
        r is Some ==> r->0 == hex_value(v@.subrange(lo as int, hi as int)),
{
    let ghost s = v@.subrange(lo as int, hi as int);
    if hi - lo < 1 || hi - lo > 4 {
        return Option::None;
    }
    let mut acc: u32 = 0;
    let mut i: usize = lo;
    while i < hi
        invariant
            lo <= i <= hi <= v@.len(),
            hi - lo <= 4,
            s == v@.subrange(lo as int, hi as int),
            all_hex_digits(s.subrange(0, i - lo)),
            acc == hex_value(s.subrange(0, i - lo)),
            acc < 65536,
        decreases hi - i,
    {
        let c = v[i];
        let u = c as u32;
        let d: u32;
        if 48 <= u && u <= 57 {
            d = u - 48;
        } else if 97 <= u && u <= 102 {
            d = u - 87;
        } else if 65 <= u && u <= 70 {
            d = u - 55;
        } else {
            proof {
                assert(s[i - lo] == c);
                assert(!all_hex_digits(s));
            }
            return Option::None;
        }
        proof {
            assert(s.subrange(0, i + 1 - lo).drop_last() =~= s.subrange(0, i - lo));
            assert(s.subrange(0, i + 1 - lo).last() == c);
            lemma_hex_value_bound(s.subrange(0, i - lo));
            reveal_with_fuel(pow16, 4);
            assert(pow16(3) == 4096);
            assert(s.subrange(0, i - lo).len() <= 3 ==> hex_value(s.subrange(0, i - lo))
                < 4096) by {
                if s.subrange(0, i - lo).len() <= 3 {
                    lemma_pow16_increases(s.subrange(0, i - lo).len(), 3);
                }
            }
        }
        acc = acc * 16 + d;
        i = i + 1;
    }
    proof {
        assert(s.subrange(0, s.len() as int) =~= s);
    }
    Option::Some(acc)
}

/// Sixteen to the `k` does not shrink as `k` grows.
pub proof fn lemma_pow16_increases(j: nat, k: nat)
    requires
        j <= k,
    ensures
        pow16(j) <= pow16(k),
    decreases k,
{
    if j < k {
        lemma_pow16_increases(j, (k - 1) as nat);
        lemma_pow16_positive((k - 1) as nat);
    }
}

/// Sixteen to the `k` is positive.
pub proof fn lemma_pow16_positive(k: nat)
    ensures
        pow16(k) >= 1,
    decreases k,
{
    if k > 0 {
        lemma_pow16_positive((k - 1) as nat);
    }
}

} // verus!
