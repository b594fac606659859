//! Decimal digit sequences: the canonical rendering of a `u32` and the
//! zero-padded nine-digit fraction that carries a sample magnitude.

use vstd::prelude::*;

use crate::bytes::matches_at;

verus! {

/// Denominator of a sample magnitude: magnitudes are fixed-point fractions
/// `m / FRAC_DENOM` with `0 <= m < FRAC_DENOM`, printed as `0.` plus nine digits.
pub const FRAC_DENOM: u32 = 1000000000;

/// A decimal digit byte, `'0'` through `'9'`.
pub open spec fn is_digit(b: u8) -> bool {
    48 <= b && b <= 57
}

/// The byte that prints the decimal digit `d`.
pub open spec fn digit_byte(d: nat) -> u8
    recommends
        d < 10,
{
    (d + 48) as u8
}

/// The numeric value of a digit byte.
pub open spec fn digit_val(b: u8) -> nat
    recommends
        is_digit(b),
{
    (b - 48) as nat
}

/// Canonical decimal rendering of `n`: no sign and no leading zeros,
/// a single `'0'` for zero.
pub open spec fn dec_of(n: nat) -> Seq<u8>
    decreases n,
{
    if n < 10 {
        seq![digit_byte(n)]
    } else {
        dec_of(n / 10).push(digit_byte(n % 10))
    }
}

/// The low `width` decimal digits of `n`, zero-padded to exactly `width` bytes.
pub open spec fn padded_digits(n: nat, width: nat) -> Seq<u8>
    decreases width,
{
    if width == 0 {
        Seq::empty()
    } else {
        padded_digits(n / 10, (width - 1) as nat).push(digit_byte(n % 10))
    }
}

/// The number that a sequence of digit bytes denotes, read most significant first.
pub open spec fn val_of(ds: Seq<u8>) -> nat
    decreases ds.len(),
{
    if ds.len() == 0 {
        0
    } else {
        val_of(ds.drop_last()) * 10 + digit_val(ds.last())
    }
}

/// Ten to the `k`.
pub open spec fn pow10(k: nat) -> nat
    decreases k,
{
    if k == 0 {
        1
    } else {
        10 * pow10((k - 1) as nat)
    }
}

/// The canonical rendering is non-empty and made of digits, and reading it
/// back yields the number it was made from.
pub proof fn lemma_dec_of(n: nat)
    ensures
        dec_of(n).len() >= 1,
        forall|k: int| 0 <= k < dec_of(n).len() ==> is_digit(#[trigger] dec_of(n)[k]),
        val_of(dec_of(n)) == n,
    decreases n,
{
    if n < 10 {
        assert(dec_of(n) =~= seq![digit_byte(n)]);
        assert(dec_of(n).drop_last() =~= Seq::<u8>::empty());
        assert(val_of(Seq::<u8>::empty()) == 0);
        assert(dec_of(n).last() == digit_byte(n));
        assert(val_of(dec_of(n)) == digit_val(digit_byte(n)));
    } else {
        lemma_dec_of(n / 10);
        let prefix = dec_of(n / 10);
        let whole = dec_of(n);
        assert(whole == prefix.push(digit_byte(n % 10)));
        assert(whole.drop_last() =~= prefix);
        assert(whole.last() == digit_byte(n % 10));
        assert(val_of(whole) == n / 10 * 10 + n % 10);
        assert(forall|k: int| 0 <= k < whole.len() ==> is_digit(#[trigger] whole[k])) by {
            assert(forall|k: int|
                0 <= k < prefix.len() ==> #[trigger] whole[k] == prefix[k]);
        }
    }
}

/// A padded rendering of `n < pow10(width)` has exactly `width` digit bytes
/// and reads back as `n`.
pub proof fn lemma_padded_digits(n: nat, width: nat)
    requires
        n < pow10(width),
    ensures
        padded_digits(n, width).len() == width,
        forall|k: int| 0 <= k < width ==> is_digit(#[trigger] padded_digits(n, width)[k]),
        val_of(padded_digits(n, width)) == n,
    decreases width,
{
    if width == 0 {
        assert(padded_digits(n, width) =~= Seq::<u8>::empty());
    } else {
        assert(pow10(width) == 10 * pow10((width - 1) as nat));
        assert(n / 10 < pow10((width - 1) as nat)) by {
            if n / 10 >= pow10((width - 1) as nat) {
                assert(n >= n / 10 * 10);
                assert(n / 10 * 10 >= pow10((width - 1) as nat) * 10) by (nonlinear_arith)
                    requires
                        n / 10 >= pow10((width - 1) as nat),
                ;
            }
        }
        lemma_padded_digits(n / 10, (width - 1) as nat);
        let prefix = padded_digits(n / 10, (width - 1) as nat);
        let whole = padded_digits(n, width);
        assert(whole == prefix.push(digit_byte(n % 10)));
        assert(whole.drop_last() =~= prefix);
        assert(val_of(whole) == n / 10 * 10 + n % 10);
        assert(forall|k: int| 0 <= k < whole.len() ==> is_digit(#[trigger] whole[k])) by {
            assert(forall|k: int|
                0 <= k < prefix.len() ==> #[trigger] whole[k] == prefix[k]);
        }
    }
}

/// A padded rendering always has exactly `width` bytes.
pub proof fn lemma_padded_len(n: nat, width: nat)
    ensures
        padded_digits(n, width).len() == width,
    decreases width,
{
    if width > 0 {
        lemma_padded_len(n / 10, (width - 1) as nat);
    }
}

/// Reading a prefix of a digit sequence never yields more than the whole.
pub proof fn lemma_val_of_take_le(ds: Seq<u8>, k: int)
    requires
        0 <= k <= ds.len(),
    ensures
        val_of(ds.take(k)) <= val_of(ds),
    decreases ds.len() - k,
{
    if k == ds.len() {
        assert(ds.take(k) =~= ds);
    } else {
        lemma_val_of_take_le(ds, k + 1);
        let longer = ds.take(k + 1);
        assert(longer.drop_last() =~= ds.take(k));
        assert(val_of(longer) == val_of(ds.take(k)) * 10 + digit_val(longer.last()));
    }
}

/// Appends the canonical decimal rendering of `n`.
pub fn push_dec_u32(v: &mut Vec<u8>, n: u32)
    ensures
        final(v)@ == old(v)@ + dec_of(n as nat),
    decreases n,
{
    if n < 10 {
        v.push((n + 48) as u8);
        assert(v@ =~= old(v)@ + dec_of(n as nat));
    } else {
        push_dec_u32(v, n / 10);
        v.push((n % 10 + 48) as u8);
        assert(v@ =~= old(v)@ + dec_of(n as nat));
    }
}

/// Appends the low `width` digits of `n`, zero-padded to `width` bytes.
pub fn push_padded(v: &mut Vec<u8>, n: u32, width: u32)
    ensures
        final(v)@ == old(v)@ + padded_digits(n as nat, width as nat),
    decreases width,
{
    if width == 0 {
        assert(v@ =~= old(v)@ + padded_digits(n as nat, 0));
    } else {
        push_padded(v, n / 10, width - 1);
        v.push((n % 10 + 48) as u8);
        assert(v@ =~= old(v)@ + padded_digits(n as nat, width as nat));
    }
}

/// `0.` followed by exactly nine digits: the rendering of the fixed-point
/// fraction `m / FRAC_DENOM`.
pub open spec fn frac9_of(m: nat) -> Seq<u8> {
    seq![48u8, 46u8] + padded_digits(m, 9)
}

/// Appends the rendering of the fraction `m / FRAC_DENOM`.
pub fn push_frac9(v: &mut Vec<u8>, m: u32)
    requires
        m < FRAC_DENOM,
    ensures
        final(v)@ == old(v)@ + frac9_of(m as nat),
{
    v.push(48);
    v.push(46);
    push_padded(v, m, 9);
    assert(v@ =~= old(v)@ + frac9_of(m as nat));
}

/// The powers of ten up to the fraction width, spelled out.
pub proof fn lemma_pow10_values()
    ensures
        pow10(0) == 1,
        pow10(1) == 10,
        pow10(2) == 100,
        pow10(3) == 1000,
        pow10(4) == 10000,
        pow10(5) == 100000,
        pow10(6) == 1000000,
        pow10(7) == 10000000,
        pow10(8) == 100000000,
        pow10(9) == 1000000000,
{
    reveal_with_fuel(pow10, 11);
}

/// `n`'s canonical rendering stands at `i` and ends the digit run there:
/// the byte that follows it, if any, is not a digit.
pub open spec fn dec_matches(s: Seq<u8>, i: int, n: u32) -> bool {
    matches_at(s, i, dec_of(n as nat)) && (i + dec_of(n as nat).len() == s.len() || !is_digit(
        s[i + dec_of(n as nat).len()],
    ))
}

/// Reads a run of digits starting at `i` as a `u32`.
///
/// Canonical recovery: whenever the canonical rendering of some `n` stands at
/// `i` and ends the digit run, the parse yields exactly `n` and stops right
/// after it.
pub fn parse_dec_u32(s: &Vec<u8>, i: usize) -> (r: Option<(u32, usize)>)
    requires
        i <= s@.len(),
    ensures
        r matches Some(p) ==> i <= p.1 <= s@.len(),
        forall|n: u32| #[trigger] dec_matches(s@, i as int, n) ==> r == Some(
            (n, ((i + dec_of(n as nat).len()) as usize)),
        ),
{
    let mut j: usize = i;
    let mut acc: u64 = 0;
    while j < s.len() && 48 <= s[j] && s[j] <= 57
        invariant
            i <= j <= s@.len(),
            forall|k: int| i <= k < j ==> is_digit(s@[k]),
            acc == val_of(s@.subrange(i as int, j as int)),
            acc <= u32::MAX,
        decreases s@.len() - j,
    {
        let d = (s[j] - 48) as u64;
        proof {
            let sub1 = s@.subrange(i as int, j + 1);
            assert(sub1.drop_last() =~= s@.subrange(i as int, j as int));
            assert(sub1.last() == s@[j as int]);
        }
        acc = acc * 10 + d;
        j += 1;
        if acc > u32::MAX as u64 {
            proof {
                assert forall|n: u32| #[trigger] dec_matches(s@, i as int, n) implies false by {
                    lemma_dec_of(n as nat);
                    let dn = dec_of(n as nat);
                    let l = dn.len() as int;
                    assert forall|k: int| 0 <= k < l implies s@[i + k] == dn[k] by {
                        assert(s@.subrange(i as int, i + l)[k] == s@[i + k]);
                    }
                    if i + l < j {
                        assert(is_digit(s@[i + l]));
                    } else {
                        assert(s@.subrange(i as int, j as int) =~= dn.take(j - i));
                        lemma_val_of_take_le(dn, j - i);
                    }
                }
            }
            return None;
        }
    }
    if j == i {
        proof {
            assert forall|n: u32| #[trigger] dec_matches(s@, i as int, n) implies false by {
                lemma_dec_of(n as nat);
                assert(s@.subrange(i as int, i + dec_of(n as nat).len())[0] == s@[i as int]);
            }
        }
        return None;
    }
    let value = acc as u32;
    proof {
        assert forall|n: u32| #[trigger] dec_matches(s@, i as int, n) implies (n == value && i
            + dec_of(n as nat).len() == j) by {
            lemma_dec_of(n as nat);
            let dn = dec_of(n as nat);
            let l = dn.len() as int;
            assert forall|k: int| 0 <= k < l implies s@[i + k] == dn[k] by {
                assert(s@.subrange(i as int, i + l)[k] == s@[i + k]);
            }
            if i + l < j {
                assert(is_digit(s@[i + l]));
                assert(false);
            }
            if i + l > j {
                assert(s@[j as int] == dn[j - i]);
                assert(is_digit(s@[j as int]));
                assert(false);
            }
            assert(s@.subrange(i as int, j as int) =~= dn);
        }
    }
    Some((value, j))
}

/// Reads a fraction `0.` plus nine digits starting at `i`.
///
/// Canonical recovery: whenever the rendering of some `m < FRAC_DENOM` stands
/// at `i`, the parse yields exactly `m` and stops right after its eleven bytes.
pub fn parse_frac9(s: &Vec<u8>, i: usize) -> (r: Option<(u32, usize)>)
    requires
        i <= s@.len(),
    ensures
        r matches Some(p) ==> p.0 < FRAC_DENOM && i <= p.1 <= s@.len(),
        forall|m: u32|
            m < FRAC_DENOM && #[trigger] matches_at(s@, i as int, frac9_of(m as nat)) ==> r
                == Some((m, ((i + 11) as usize))),
{
    proof {
        lemma_pow10_values();
        assert forall|m: u32|
            m < FRAC_DENOM && #[trigger] matches_at(s@, i as int, frac9_of(m as nat)) implies (i
            + 11 <= s@.len() && frac9_of(m as nat).len() == 11) by {
            lemma_padded_digits(m as nat, 9);
        }
    }
    if s.len() - i < 11 {
        return None;
    }
    let end = i + 11;
    if s[i] != 48 || s[i + 1] != 46 {
        proof {
            assert forall|m: u32|
                m < FRAC_DENOM && #[trigger] matches_at(
                    s@,
                    i as int,
                    frac9_of(m as nat),
                ) implies false by {
                lemma_padded_digits(m as nat, 9);
                let f = frac9_of(m as nat);
                assert(s@.subrange(i as int, i + 11)[0] == s@[i as int]);
                assert(s@.subrange(i as int, i + 11)[1] == s@[i + 1]);
                assert(f[0] == 48 && f[1] == 46);
            }
        }
        return None;
    }
    let mut k: usize = 0;
    let mut acc: u32 = 0;
    while k < 9
        invariant
            0 <= k <= 9,
            end == i + 11,
            i + 11 <= s@.len(),
            acc == val_of(s@.subrange(i + 2, i + 2 + k)),
            acc < pow10(k as nat),
            forall|t: int| i + 2 <= t < i + 2 + k ==> is_digit(#[trigger] s@[t]),
        decreases 9 - k,
    {
        proof {
            lemma_pow10_values();
        }
        let b = s[i + 2 + k];
        if b < 48 || b > 57 {
            proof {
                assert forall|m: u32|
                    m < FRAC_DENOM && #[trigger] matches_at(
                        s@,
                        i as int,
                        frac9_of(m as nat),
                    ) implies false by {
                    lemma_padded_digits(m as nat, 9);
                    let f = frac9_of(m as nat);
                    assert(s@.subrange(i as int, i + 11)[2 + k] == s@[i + 2 + k]);
                    assert(f[2 + k] == padded_digits(m as nat, 9)[k as int]);
                    assert(is_digit(padded_digits(m as nat, 9)[k as int]));
                }
            }
            return None;
        }
        proof {
            let sub1 = s@.subrange(i + 2, i + 2 + k + 1);
            assert(sub1.drop_last() =~= s@.subrange(i + 2, i + 2 + k));
            assert(sub1.last() == s@[i + 2 + k]);
            assert(pow10((k + 1) as nat) == 10 * pow10(k as nat));
        }
        acc = acc * 10 + (b - 48) as u32;
        k += 1;
    }
    proof {
        lemma_pow10_values();
        assert forall|m: u32|
            m < FRAC_DENOM && #[trigger] matches_at(s@, i as int, frac9_of(m as nat)) implies m
            == acc by {
            lemma_padded_digits(m as nat, 9);
            let f = frac9_of(m as nat);
            assert forall|t: int| 0 <= t < 9 implies s@[i + 2 + t] == padded_digits(m as nat, 9)[t] by {
                assert(s@.subrange(i as int, i + 11)[2 + t] == s@[i + 2 + t]);
                assert(f[2 + t] == padded_digits(m as nat, 9)[t]);
            }
            assert(s@.subrange(i + 2, i + 11) =~= padded_digits(m as nat, 9));
        }
    }
    Some((acc, i + 11))
}

} // verus!
