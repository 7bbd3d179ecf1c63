use vstd::prelude::*;
use vstd::arithmetic::div_mod::{lemma_basic_div, lemma_div_denominator, lemma_fundamental_div_mod};
use vstd::arithmetic::mul::lemma_mul_inequality;
use vstd::arithmetic::power::{
    lemma_pow0, lemma_pow1, lemma_pow_adds, lemma_pow_increases, lemma_pow_positive, pow,
};
use vstd::string::StrSliceExecFns;
use vstd::string::StringExecFns;

verus! {

/// The character standing for one hexadecimal digit, lower case.
pub open spec fn nibble_char(d: int) -> char {
    if d == 0 {
        '0'
    } else if d == 1 {
        '1'
    } else if d == 2 {
        '2'
    } else if d == 3 {
        '3'
    } else if d == 4 {
        '4'
    } else if d == 5 {
        '5'
    } else if d == 6 {
        '6'
    } else if d == 7 {
        '7'
    } else if d == 8 {
        '8'
    } else if d == 9 {
        '9'
    } else if d == 10 {
        'a'
    } else if d == 11 {
        'b'
    } else if d == 12 {
        'c'
    } else if d == 13 {
        'd'
    } else if d == 14 {
        'e'
    } else {
        'f'
    }
}

/// The numeric value of a lower-case hexadecimal digit character, if it is one.
pub open spec fn hex_char_val(c: char) -> Option<int> {
    if c == '0' {
        Some(0int)
    } else if c == '1' {
        Some(1int)
    } else if c == '2' {
        Some(2int)
    } else if c == '3' {
        Some(3int)
    } else if c == '4' {
        Some(4int)
    } else if c == '5' {
        Some(5int)
    } else if c == '6' {
        Some(6int)
    } else if c == '7' {
        Some(7int)
    } else if c == '8' {
        Some(8int)
    } else if c == '9' {
        Some(9int)
    } else if c == 'a' {
        Some(10int)
    } else if c == 'b' {
        Some(11int)
    } else if c == 'c' {
        Some(12int)
    } else if c == 'd' {
        Some(13int)
    } else if c == 'e' {
        Some(14int)
    } else if c == 'f' {
        Some(15int)
    } else {
        None
    }
}

pub open spec fn pow16(n: nat) -> int {
    pow(16, n)
}

/// Digit `k` (most significant first) of `v` written with `width` digits.
pub open spec fn hex_digit(v: u128, width: nat, k: int) -> int {
    (v as int / pow16((width - 1 - k) as nat)) % 16
}

/// `v` written as `width` lower-case hexadecimal digits, most significant
/// first; digits beyond `width` are cut off.
pub open spec fn hex_seq(v: u128, width: nat) -> Seq<char> {
    Seq::new(width, |k: int| nibble_char(hex_digit(v, width, k)))
}

proof fn lemma_nibble_char_val(d: int)
    requires
        0 <= d < 16,
    ensures
        hex_char_val(nibble_char(d)) == Some(d),
        nibble_char(d) != '"',
{
}

/// A bound on the values writable with up to 32 hexadecimal digits: they all
/// fit in 128 bits.
proof fn lemma_pow16_fits_u128(n: nat)
    requires
        n <= 32,
    ensures
        pow16(n) <= 0x100000000000000000000000000000000,
{
    lemma_pow16_32();
    lemma_pow_increases(16, n, 32);
}

/// The exact range of 32-digit hexadecimal numbers: it is the range of
/// 128-bit values.
pub proof fn lemma_pow16_32()
    ensures
        pow16(32) == 0x100000000000000000000000000000000,
{
    lemma_pow1(16);
    lemma_pow_adds(16, 1, 1);
    assert(pow(16, 2) == 256);
    lemma_pow_adds(16, 2, 2);
    assert(pow(16, 4) == 0x10000);
    lemma_pow_adds(16, 4, 4);
    assert(pow(16, 8) == 0x100000000);
    lemma_pow_adds(16, 8, 8);
    assert(pow(16, 16) == 0x10000000000000000);
    lemma_pow_adds(16, 16, 16);
}

/// A fixed-width hexadecimal rendering determines the value it was written
/// from: no two values share one rendering.
pub proof fn lemma_hex_seq_injective(v1: u128, v2: u128, width: nat)
    requires
        (v1 as int) < pow16(width),
        (v2 as int) < pow16(width),
        hex_seq(v1, width) == hex_seq(v2, width),
    ensures
        v1 == v2,
    decreases width,
{
    if width == 0 {
        lemma_pow0(16);
    } else {
        let w1 = (width - 1) as nat;
        lemma_hex_seq_step(v1, width);
        lemma_hex_seq_step(v2, width);
        let s1 = hex_seq(v1, width);
        let s2 = hex_seq(v2, width);
        assert(s1.last() == nibble_char((v1 % 16) as int));
        assert(s2.last() == nibble_char((v2 % 16) as int));
        lemma_nibble_char_val((v1 % 16) as int);
        lemma_nibble_char_val((v2 % 16) as int);
        assert(v1 % 16 == v2 % 16);
        assert(hex_seq(v1 / 16, w1) =~= hex_seq(v2 / 16, w1)) by {
            assert forall|k: int| 0 <= k < w1 implies #[trigger] hex_seq(v1 / 16, w1)[k]
                == hex_seq(v2 / 16, w1)[k] by {
                assert(hex_seq(v1 / 16, w1)[k] == s1[k]);
                assert(hex_seq(v2 / 16, w1)[k] == s2[k]);
            }
        }
        lemma_pow_positive(16, w1);
        assert(pow16(width) == 16 * pow16(w1)) by {
            lemma_pow_adds(16, 1, w1);
            lemma_pow1(16);
        }
        lemma_fundamental_div_mod(v1 as int, 16);
        lemma_fundamental_div_mod(v2 as int, 16);
        assert((v1 as int / 16) < pow16(w1));
        assert((v2 as int / 16) < pow16(w1));
        lemma_hex_seq_injective(v1 / 16, v2 / 16, w1);
    }
}

/// Unfolds one digit off the end of a fixed-width hexadecimal rendering.
proof fn lemma_hex_seq_step(v: u128, width: nat)
    requires
        width >= 1,
    ensures
        hex_seq(v, width) == hex_seq(v / 16, (width - 1) as nat).push(
            nibble_char((v % 16) as int),
        ),
{
    let w1 = (width - 1) as nat;
    let lhs = hex_seq(v, width);
    let rhs = hex_seq(v / 16, w1).push(nibble_char((v % 16) as int));
    assert forall|k: int| 0 <= k < width implies lhs[k] == rhs[k] by {
        if k < width - 1 {
            let e = (width - 2 - k) as nat;
            lemma_pow_positive(16, e);
            lemma_div_denominator(v as int, 16, pow16(e));
            lemma_pow_adds(16, e, 1);
            lemma_pow1(16);
            assert(pow16(e) * 16 == pow16((e + 1) as nat));
            assert((v as int / 16) / pow16(e) == v as int / pow16((e + 1) as nat));
            assert((v / 16) as int == v as int / 16);
        } else {
            lemma_pow0(16);
            assert(hex_digit(v, width, k) == (v as int) % 16);
        }
    }
    assert(lhs =~= rhs);
}

/// Appends the character of one hexadecimal digit to a string.
fn push_nibble(s: &mut String, d: u128)
    requires
        d < 16,
    ensures
        final(s)@ == old(s)@.push(nibble_char(d as int)),
{
    let lit: &str = match d {
        0 => "0",
        1 => "1",
        2 => "2",
        3 => "3",
        4 => "4",
        5 => "5",
        6 => "6",
        7 => "7",
        8 => "8",
        9 => "9",
        10 => "a",
        11 => "b",
        12 => "c",
        13 => "d",
        14 => "e",
        _ => "f",
    };
    proof {
        reveal_strlit("0");
        reveal_strlit("1");
        reveal_strlit("2");
        reveal_strlit("3");
        reveal_strlit("4");
        reveal_strlit("5");
        reveal_strlit("6");
        reveal_strlit("7");
        reveal_strlit("8");
        reveal_strlit("9");
        reveal_strlit("a");
        reveal_strlit("b");
        reveal_strlit("c");
        reveal_strlit("d");
        reveal_strlit("e");
        reveal_strlit("f");
        assert(lit@ =~= seq![nibble_char(d as int)]);
    }
    s.append(lit);
    proof {
        assert(s@ =~= old(s)@.push(nibble_char(d as int)));
    }
}

/// Writes `v` as exactly `width` lower-case hexadecimal digits, most
/// significant first.
pub fn to_hex(v: u128, width: usize) -> (r: String)
    ensures
        r@ == hex_seq(v, width as nat),
    decreases width,
{
    if width == 0 {
        let r = String::new();
        proof {
            assert(r@ =~= hex_seq(v, 0));
        }
        r
    } else {
        let mut r = to_hex(v / 16, width - 1);
        push_nibble(&mut r, v % 16);
        proof {
            lemma_hex_seq_step(v, width as nat);
        }
        r
    }
}

/// The numeric value of one lower-case hexadecimal digit character.
fn hex_val_of(c: char) -> (r: Option<u8>)
    ensures
        match r {
            Some(d) => hex_char_val(c) == Some(d as int),
            None => hex_char_val(c) is None,
        },
{
    match c {
        '0' => Some(0),
        '1' => Some(1),
        '2' => Some(2),
        '3' => Some(3),
        '4' => Some(4),
        '5' => Some(5),
        '6' => Some(6),
        '7' => Some(7),
        '8' => Some(8),
        '9' => Some(9),
        'a' => Some(10),
        'b' => Some(11),
        'c' => Some(12),
        'd' => Some(13),
        'e' => Some(14),
        'f' => Some(15),
        _ => None,
    }
}

/// Reads `width` characters of `s` starting at `from` as a fixed-width
/// lower-case hexadecimal number. Whenever that window actually is the
/// `width`-digit rendering of a value, that value is returned.
pub fn parse_hex(s: &str, from: usize, width: usize) -> (r: Option<u128>)
    requires
        from + width <= s@.len(),
        s@.len() <= usize::MAX,
        width <= 32,
    ensures
        forall|v: u128|
            (v as int) < pow16(width as nat) && s@.subrange(
                from as int,
                from + width,
            ) == hex_seq(v, width as nat) ==> r == Some(v),
{
    let ghost sub = s@.subrange(from as int, from + width);
    let mut acc: u128 = 0;
    let mut i: usize = 0;
    proof {
        lemma_pow_positive(16, width as nat);
        lemma_pow0(16);
        assert forall|v: u128| (v as int) < pow16(width as nat) && sub == hex_seq(
            v,
            width as nat,
        ) implies acc as int == v as int / pow16((width - i) as nat) by {
            lemma_basic_div(v as int, pow16(width as nat));
        }
    }
    while i < width
        invariant
            0 <= i <= width,
            width <= 32,
            from + width <= s@.len(),
            s@.len() <= usize::MAX,
            sub == s@.subrange(from as int, from + width),
            (acc as int) < pow16(i as nat),
            forall|v: u128|
                (v as int) < pow16(width as nat) && sub == hex_seq(v, width as nat) ==> acc as int
                    == v as int / pow16((width - i) as nat),
        decreases width - i,
    {
        let c = s.get_char(from + i);
        proof {
            assert(sub[i as int] == s@[from + i]);
        }
        let d = match hex_val_of(c) {
            Some(d) => d,
            None => {
                proof {
                    assert forall|v: u128|
                        (v as int) < pow16(width as nat) && sub == hex_seq(v, width as nat)
                        implies false by {
                        let dd = hex_digit(v, width as nat, i as int);
                        assert(sub[i as int] == nibble_char(dd));
                        lemma_nibble_char_val(dd);
                    }
                }
                return None;
            },
        };
        proof {
            lemma_pow_positive(16, (i + 1) as nat);
            assert(pow16((i + 1) as nat) == 16 * pow16(i as nat)) by {
                lemma_pow_adds(16, 1, i as nat);
                lemma_pow1(16);
            }
            lemma_pow16_fits_u128((i + 1) as nat);
            lemma_mul_inequality(acc as int + 1, pow16(i as nat), 16);
            assert(16 * (acc as int) + 16 <= 16 * pow16(i as nat)) by {
                assert((acc as int + 1) * 16 == 16 * (acc as int) + 16) by (nonlinear_arith);
                assert(pow16(i as nat) * 16 == 16 * pow16(i as nat)) by (nonlinear_arith);
            }
            assert(16 * (acc as int) + (d as int) < pow16((i + 1) as nat));
            lemma_pow_positive(16, (width - i) as nat);
            lemma_pow_positive(16, (width - i - 1) as nat);
            assert forall|v: u128|
                (v as int) < pow16(width as nat) && sub == hex_seq(v, width as nat) implies 16 * (
            acc as int) + (d as int) == v as int / pow16((width - i - 1) as nat) by {
                let dd = hex_digit(v, width as nat, i as int);
                assert(sub[i as int] == nibble_char(dd));
                lemma_nibble_char_val(dd);
                assert(d as int == dd);
                let x = v as int / pow16((width - i - 1) as nat);
                assert(dd == x % 16);
                lemma_div_denominator(v as int, pow16((width - i - 1) as nat), 16);
                assert(pow16((width - i - 1) as nat) * 16 == pow16((width - i) as nat)) by {
                    lemma_pow_adds(16, (width - i - 1) as nat, 1);
                    lemma_pow1(16);
                }
                assert(x / 16 == v as int / pow16((width - i) as nat));
                lemma_fundamental_div_mod(x, 16);
                assert(acc as int == x / 16);
            }
        }
        acc = 16 * acc + (d as u128);
        i = i + 1;
    }
    proof {
        lemma_pow0(16);
        assert forall|v: u128|
            (v as int) < pow16(width as nat) && sub == hex_seq(v, width as nat) implies acc
            == v by {
            assert(acc as int == v as int / 1);
        }
    }
    Some(acc)
}

} // verus!
