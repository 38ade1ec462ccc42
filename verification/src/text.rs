//! Numbers as text, for the consoles: decimal, hexadecimal, and decimal
//! with a comma after every three digits. All text is ASCII.

use vstd::prelude::*;

verus! {

/// The decimal digits of `n`, most significant first; nothing for zero.
pub open spec fn digits_of(n: nat) -> Seq<u8>
    decreases n,
{
    if n == 0 {
        Seq::empty()
    } else {
        digits_of(n / 10).push((48 + n % 10) as u8)
    }
}

/// `n` in decimal.
pub open spec fn decimal(n: nat) -> Seq<u8> {
    if n == 0 {
        seq![48u8]
    } else {
        digits_of(n)
    }
}

/// The character for a hexadecimal digit, in lower case.
pub open spec fn hex_digit(digit: nat) -> u8 {
    if digit < 10 {
        (48 + digit) as u8
    } else {
        (87 + digit) as u8
    }
}

/// The hexadecimal digits of `n`, most significant first; nothing for
/// zero.
pub open spec fn hex_digits_of(n: nat) -> Seq<u8>
    decreases n,
{
    if n == 0 {
        Seq::empty()
    } else {
        hex_digits_of(n / 16).push(hex_digit(n % 16))
    }
}

/// `n` in hexadecimal, without leading zeros.
pub open spec fn hex(n: nat) -> Seq<u8> {
    if n == 0 {
        seq![48u8]
    } else {
        hex_digits_of(n)
    }
}

/// The last `width` hexadecimal digits of `n`, with leading zeros.
pub open spec fn hex_fixed(n: nat, width: nat) -> Seq<u8>
    decreases width,
{
    if width == 0 {
        Seq::empty()
    } else {
        hex_fixed(n / 16, (width - 1) as nat).push(hex_digit(n % 16))
    }
}

/// The decimal digits of `n` with a comma after every three digits,
/// counted from the right; `count` digits stand to the right already.
/// Nothing for zero.
pub open spec fn grouped_digits_of(n: nat, count: nat) -> Seq<u8>
    decreases n,
{
    if n == 0 {
        Seq::empty()
    } else {
        let digit = seq![(48 + n % 10) as u8];
        let tail = if count > 0 && count % 3 == 0 {
            digit.push(44u8)
        } else {
            digit
        };
        grouped_digits_of(n / 10, count + 1) + tail
    }
}

/// `n` in decimal with a comma after every three digits: 1234567 is
/// `1,234,567`.
pub open spec fn grouped_decimal(n: nat) -> Seq<u8> {
    if n == 0 {
        seq![48u8]
    } else {
        grouped_digits_of(n, 0)
    }
}

/// The character for a hexadecimal digit.
pub fn hex_char(digit: u8) -> (c: u8)
    requires
        digit < 16,
    ensures
        c == hex_digit(digit as nat),
{
    if digit < 10 {
        digit + 48
    } else {
        digit - 10 + 97
    }
}

/// Appends `n` in decimal.
pub fn push_decimal(out: &mut Vec<u8>, n: u64)
    ensures
        final(out)@ == old(out)@ + decimal(n as nat),
{
    if n == 0 {
        out.push(48);
        return ;
    }
    let mut num = n;
    let mut digits: [u8; 20] = [0u8; 20];
    let mut i: usize = 0;
    let ghost mut low: Seq<u8> = Seq::empty();
    let ghost mut scale: nat = 1;
    while num > 0
        invariant
            i <= 20,
            low.len() == i,
            digits_of(n as nat) == digits_of(num as nat) + low,
            forall|t: int| 0 <= t < i ==> digits@[t] == low[i - 1 - t],
            scale == pow10(i as nat),
            num * scale <= n,
        decreases num,
    {
        proof {
            lemma_pow10(i as nat);
            if i == 20 {
                assert(num * scale >= scale) by (nonlinear_arith)
                    requires
                        num >= 1,
                        scale >= 0,
                ;
            }
        }
        let digit = (num % 10) as u8 + 48;
        proof {
            assert(digits_of(num as nat) == digits_of((num / 10) as nat).push(digit));
            assert(digits_of(num as nat) + low =~= digits_of((num / 10) as nat) + (seq![digit]
                + low));
            let next = seq![digit] + low;
            assert forall|t: int| 0 <= t < i + 1 implies digits@.update(i as int, digit)[t]
                == next[i - t] by {
                if t < i {
                    assert(next[i - t] == low[i - 1 - t]);
                }
            }
            low = next;
            assert((num / 10) * (scale * 10) <= n) by (nonlinear_arith)
                requires
                    num * scale <= n,
                    (num / 10) * 10 <= num,
                    scale >= 0,
            ;
            scale = scale * 10;
        }
        digits[i] = digit;
        num = num / 10;
        i += 1;
    }
    assert(digits_of(n as nat) =~= low);
    let mut j: usize = i;
    while j > 0
        invariant
            j <= i <= 20,
            low.len() == i,
            forall|t: int| 0 <= t < i ==> digits@[t] == low[i - 1 - t],
            out@ == old(out)@ + low.subrange(0, i - j),
        decreases j,
    {
        j -= 1;
        out.push(digits[j]);
        assert(out@ =~= old(out)@ + low.subrange(0, i - j));
    }
    assert(low.subrange(0, i as int) =~= low);
}

/// Ten to the power of `e`.
pub open spec fn pow10(e: nat) -> nat
    decreases e,
{
    if e == 0 {
        1
    } else {
        10 * pow10((e - 1) as nat)
    }
}

/// The powers of ten: each is ten times the one before, and the twentieth
/// is beyond every 64-bit number.
pub proof fn lemma_pow10(e: nat)
    ensures
        pow10(e) >= 1,
        pow10(e + 1) == 10 * pow10(e),
        e == 20 ==> pow10(e) == 100_000_000_000_000_000_000,
    decreases e,
{
    reveal_with_fuel(pow10, 22);
    if e > 0 {
        lemma_pow10((e - 1) as nat);
    }
}

/// Sixteen to the power of `e`.
pub open spec fn pow16(e: nat) -> nat
    decreases e,
{
    if e == 0 {
        1
    } else {
        16 * pow16((e - 1) as nat)
    }
}

/// The powers of sixteen: each is sixteen times the one before, and the
/// sixteenth is beyond every 64-bit number.
pub proof fn lemma_pow16(e: nat)
    ensures
        pow16(e) >= 1,
        pow16(e + 1) == 16 * pow16(e),
        e == 16 ==> pow16(e) == 0x1_0000_0000_0000_0000,
    decreases e,
{
    reveal_with_fuel(pow16, 18);
    if e > 0 {
        lemma_pow16((e - 1) as nat);
    }
}

/// Appends `n` in hexadecimal, without leading zeros.
pub fn push_hex(out: &mut Vec<u8>, n: u64)
    ensures
        final(out)@ == old(out)@ + hex(n as nat),
{
    if n == 0 {
        out.push(48);
        return ;
    }
    let mut num = n;
    let mut digits: [u8; 16] = [0u8; 16];
    let mut i: usize = 0;
    let ghost mut low: Seq<u8> = Seq::empty();
    let ghost mut scale: nat = 1;
    while num > 0
        invariant
            i <= 16,
            low.len() == i,
            hex_digits_of(n as nat) == hex_digits_of(num as nat) + low,
            forall|t: int| 0 <= t < i ==> digits@[t] == low[i - 1 - t],
            scale == pow16(i as nat),
            num * scale <= n,
        decreases num,
    {
        proof {
            lemma_pow16(i as nat);
            if i == 16 {
                assert(num * scale >= scale) by (nonlinear_arith)
                    requires
                        num >= 1,
                        scale >= 0,
                ;
            }
        }
        let digit = hex_char((num % 16) as u8);
        proof {
            assert(hex_digits_of(num as nat) == hex_digits_of((num / 16) as nat).push(digit));
            assert(hex_digits_of(num as nat) + low =~= hex_digits_of((num / 16) as nat) + (
            seq![digit] + low));
            let next = seq![digit] + low;
            assert forall|t: int| 0 <= t < i + 1 implies digits@.update(i as int, digit)[t]
                == next[i - t] by {
                if t < i {
                    assert(next[i - t] == low[i - 1 - t]);
                }
            }
            low = next;
            assert((num / 16) * (scale * 16) <= n) by (nonlinear_arith)
                requires
                    num * scale <= n,
                    (num / 16) * 16 <= num,
                    scale >= 0,
            ;
            scale = scale * 16;
        }
        digits[i] = digit;
        num = num / 16;
        i += 1;
    }
    assert(hex_digits_of(n as nat) =~= low);
    let mut j: usize = i;
    while j > 0
        invariant
            j <= i <= 16,
            low.len() == i,
            forall|t: int| 0 <= t < i ==> digits@[t] == low[i - 1 - t],
            out@ == old(out)@ + low.subrange(0, i - j),
        decreases j,
    {
        j -= 1;
        out.push(digits[j]);
        assert(out@ =~= old(out)@ + low.subrange(0, i - j));
    }
    assert(low.subrange(0, i as int) =~= low);
}

/// Appends the last eight hexadecimal digits of `n`, with leading zeros.
pub fn push_hex_fixed(out: &mut Vec<u8>, n: u64)
    ensures
        final(out)@ == old(out)@ + hex_fixed(n as nat, 8),
{
    let mut digits: [u8; 8] = [48u8; 8];
    let mut value = n;
    let mut k: usize = 0;
    while k < 8
        invariant
            k <= 8,
            hex_fixed(n as nat, 8) == hex_fixed(value as nat, (8 - k) as nat) + digits@.subrange(
                8 - k,
                8,
            ),
        decreases 8 - k,
    {
        let digit = hex_char((value % 16) as u8);
        let ghost before = digits@;
        digits[7 - k] = digit;
        proof {
            assert(hex_fixed(value as nat, (8 - k) as nat) == hex_fixed(
                (value / 16) as nat,
                (8 - k - 1) as nat,
            ).push(digit));
            assert(digits@.subrange(7 - k, 8) =~= seq![digit] + before.subrange(8 - k, 8));
            assert(hex_fixed(value as nat, (8 - k) as nat) + before.subrange(8 - k, 8)
                =~= hex_fixed((value / 16) as nat, (8 - k - 1) as nat) + (seq![digit]
                + before.subrange(8 - k, 8)));
        }
        value = value / 16;
        k += 1;
    }
    assert(hex_fixed(n as nat, 8) =~= digits@.subrange(0, 8));
    let mut j: usize = 0;
    while j < 8
        invariant
            j <= 8,
            out@ == old(out)@ + digits@.subrange(0, j as int),
        decreases 8 - j,
    {
        out.push(digits[j]);
        assert(out@ =~= old(out)@ + digits@.subrange(0, j + 1));
        j += 1;
    }
}

} // verus!
