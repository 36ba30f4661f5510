//! The register-address space generator's contract: given a bit width in
//! 1..=128, it describes the closed, ordered enumeration of every value
//! representable in that width, each named by its value in at least
//! two-digit upper-case hexadecimal, backed by the narrowest of the five
//! unsigned integer widths that holds the maximum value.  The 5-bit
//! instance of the enumeration is `RegisterAddress`.

use vstd::arithmetic::power2::lemma2_to64;
use vstd::arithmetic::power2::lemma2_to64_rest;
use vstd::arithmetic::power2::lemma_pow2_adds;
use vstd::arithmetic::power2::lemma_pow2_strictly_increases;
use vstd::arithmetic::power2::lemma_pow2_unfold;
use vstd::arithmetic::power2::pow2;
use vstd::prelude::*;
use vstd::string::StringExecFns;

verus! {

/// Whether the generator accepts a width: 1..=128 bits.
pub open spec fn width_accepted(bits: u32) -> bool {
    1 <= bits && bits <= 128
}

/// The greatest value representable in `bits` bits: one less than two to
/// the `bits`.
pub open spec fn spec_max_value(bits: nat) -> nat
    decreases bits,
{
    if bits == 0 {
        0
    } else {
        2 * spec_max_value((bits - 1) as nat) + 1
    }
}

/// The maximum value is one less than the corresponding power of two.
pub proof fn lemma_max_value_pow2(bits: nat)
    ensures
        spec_max_value(bits) + 1 == pow2(bits),
    decreases bits,
{
    if bits == 0 {
        lemma2_to64();
    } else {
        lemma_max_value_pow2((bits - 1) as nat);
        lemma_pow2_unfold(bits);
    }
}

/// The maximum value representable in an accepted width, or `None`
/// outside 1..=128, where generation fails.
pub fn max_value(bits: u32) -> (r: Option<u128>)
    ensures
        width_accepted(bits) ==> (r matches Some(m) && m as nat == spec_max_value(bits as nat)),
        !width_accepted(bits) ==> r is None,
{
    if bits == 0 || bits > 128 {
        return None;
    }
    let mut m: u128 = 0;
    let mut i: u32 = 0;
    while i < bits
        invariant
            i <= bits,
            bits <= 128,
            m as nat == spec_max_value(i as nat),
        decreases bits - i,
    {
        proof {
            lemma_max_value_pow2(i as nat);
            lemma2_to64();
            lemma2_to64_rest();
            lemma_pow2_adds(63, 64);
            if (i as nat) < 127 {
                lemma_pow2_strictly_increases(i as nat, 127);
            }
            assert(pow2(127) == 0x80000000000000000000000000000000);
            assert(m + 1 <= pow2(127));
        }
        m = 2 * m + 1;
        i = i + 1;
    }
    Some(m)
}

/// The narrowest of the five unsigned integer widths whose values cover
/// `bits`-bit values.
pub open spec fn spec_backing_bits(bits: nat) -> u32 {
    if bits <= 8 {
        8
    } else if bits <= 16 {
        16
    } else if bits <= 32 {
        32
    } else if bits <= 64 {
        64
    } else {
        128
    }
}

/// The width of the unsigned integer type backing the enumeration for an
/// accepted width, or `None` outside 1..=128.
pub fn backing_bits(bits: u32) -> (r: Option<u32>)
    ensures
        width_accepted(bits) ==> r == Some(spec_backing_bits(bits as nat)),
        !width_accepted(bits) ==> r is None,
{
    if bits == 0 || bits > 128 {
        None
    } else if bits <= 8 {
        Some(8)
    } else if bits <= 16 {
        Some(16)
    } else if bits <= 32 {
        Some(32)
    } else if bits <= 64 {
        Some(64)
    } else {
        Some(128)
    }
}

/// The backing width is wide enough for the maximum value, and minimally
/// so: for every wider backing, the maximum value overflows the next
/// narrower one of the five widths.
pub proof fn lemma_backing_minimal(bits: nat)
    requires
        1 <= bits <= 128,
    ensures
        spec_max_value(bits) < pow2(spec_backing_bits(bits) as nat),
        spec_backing_bits(bits) == 16 ==> spec_max_value(bits) >= pow2(8),
        spec_backing_bits(bits) == 32 ==> spec_max_value(bits) >= pow2(16),
        spec_backing_bits(bits) == 64 ==> spec_max_value(bits) >= pow2(32),
        spec_backing_bits(bits) == 128 ==> spec_max_value(bits) >= pow2(64),
{
    lemma_max_value_pow2(bits);
    let backing = spec_backing_bits(bits) as nat;
    if bits < backing {
        lemma_pow2_strictly_increases(bits, backing);
    }
    if backing == 16 {
        lemma_pow2_strictly_increases(8, bits);
    } else if backing == 32 {
        lemma_pow2_strictly_increases(16, bits);
    } else if backing == 64 {
        lemma_pow2_strictly_increases(32, bits);
    } else if backing == 128 {
        lemma_pow2_strictly_increases(64, bits);
    }
}

/// The upper-case hexadecimal digit of a value below 16.
pub open spec fn spec_hex_digit(d: nat) -> char {
    if d == 0 {
        '0'
    } else if d == 1 {
        '1'
    } else if d == 2 {
        '2'
    } else if d == 3 {
        '3'
    } else if d == 4 {
        '4'
    } else if d == 5 {
        '5'
    } else if d == 6 {
        '6'
    } else if d == 7 {
        '7'
    } else if d == 8 {
        '8'
    } else if d == 9 {
        '9'
    } else if d == 10 {
        'A'
    } else if d == 11 {
        'B'
    } else if d == 12 {
        'C'
    } else if d == 13 {
        'D'
    } else if d == 14 {
        'E'
    } else {
        'F'
    }
}

/// The upper-case hexadecimal digits of a value, most significant first,
/// without leading zeros.
pub open spec fn spec_hex_digits(v: nat) -> Seq<char>
    decreases v,
{
    if v < 16 {
        seq![spec_hex_digit(v)]
    } else {
        spec_hex_digits(v / 16).push(spec_hex_digit(v % 16))
    }
}

/// The generated name of a value: `r` followed by its upper-case
/// hexadecimal digits, zero-padded to at least two digits.
pub open spec fn spec_variant_name(v: nat) -> Seq<char> {
    if v < 16 {
        seq!['r', '0'] + spec_hex_digits(v)
    } else {
        seq!['r'] + spec_hex_digits(v)
    }
}

/// One hexadecimal digit as text.
fn hex_digit_str(d: u8) -> (r: &'static str)
    requires
        d < 16,
    ensures
        r@ == seq![spec_hex_digit(d as nat)],
{
    proof {
        reveal_strlit("0");
        reveal_strlit("1");
        reveal_strlit("2");
        reveal_strlit("3");
        reveal_strlit("4");
        reveal_strlit("5");
        reveal_strlit("6");
        reveal_strlit("7");
        reveal_strlit("8");
        reveal_strlit("9");
        reveal_strlit("A");
        reveal_strlit("B");
        reveal_strlit("C");
        reveal_strlit("D");
        reveal_strlit("E");
        reveal_strlit("F");
    }
    let r = match d {
        0 => "0",
        1 => "1",
        2 => "2",
        3 => "3",
        4 => "4",
        5 => "5",
        6 => "6",
        7 => "7",
        8 => "8",
        9 => "9",
        10 => "A",
        11 => "B",
        12 => "C",
        13 => "D",
        14 => "E",
        _ => "F",
    };
    proof {
        assert(r@ =~= seq![spec_hex_digit(d as nat)]);
    }
    r
}

/// Appends the hexadecimal digits of a value, most significant first.
fn append_hex_digits(value: u128, out: &mut String)
    ensures
        final(out)@ == old(out)@ + spec_hex_digits(value as nat),
    decreases value,
{
    if value < 16 {
        out.append(hex_digit_str(value as u8));
        proof {
            assert(final(out)@ =~= old(out)@ + spec_hex_digits(value as nat));
        }
    } else {
        append_hex_digits(value / 16, out);
        out.append(hex_digit_str((value % 16) as u8));
        proof {
            assert(final(out)@ =~= old(out)@ + spec_hex_digits(value as nat));
        }
    }
}

/// The generated name of a value: `r` followed by its upper-case
/// hexadecimal digits, zero-padded to at least two digits.
pub fn variant_name(value: u128) -> (r: String)
    ensures
        r@ == spec_variant_name(value as nat),
{
    proof {
        reveal_strlit("r");
        reveal_strlit("r0");
    }
    let mut s = if value < 16 {
        String::from_str("r0")
    } else {
        String::from_str("r")
    };
    append_hex_digits(value, &mut s);
    proof {
        assert(s@ =~= spec_variant_name(value as nat));
    }
    s
}

} // verus!
