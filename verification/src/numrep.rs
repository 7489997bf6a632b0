//! The mathematical model of the integer encodings the protocol exchanges:
//! big-endian base-256 byte strings and base-16 digit strings (ASCII bytes),
//! together with the lemmas that relate values, canonical encodings and
//! lengths.

use vstd::arithmetic::power::{
    lemma_pow_adds, lemma_pow_multiplies, lemma_pow_positive, lemma_pow_strictly_increases, pow,
};
use vstd::prelude::*;

verus! {

/// The ASCII whitespace bytes that `from_hex` strips before parsing.
pub open spec fn is_ws_byte(b: u8) -> bool {
    b == 0x20 || b == 0x0a || b == 0x09 || b == 0x0d
}

/// A byte that the hex parser accepts as a digit (either case).
pub open spec fn is_hex_digit(b: u8) -> bool {
    (0x30 <= b <= 0x39) || (0x61 <= b <= 0x66) || (0x41 <= b <= 0x46)
}

/// A byte that the hex printer emits: lowercase canonical digits only.
pub open spec fn is_lower_hex(b: u8) -> bool {
    (0x30 <= b <= 0x39) || (0x61 <= b <= 0x66)
}

/// Numeric value of a hex digit byte.
pub open spec fn hex_digit_val(b: u8) -> int {
    if 0x30 <= b <= 0x39 {
        b - 0x30
    } else if 0x61 <= b <= 0x66 {
        b - 0x61 + 10
    } else {
        b - 0x41 + 10
    }
}

/// The lowercase digit byte for a value in `[0, 16)`.
pub open spec fn digit_byte(d: int) -> u8 {
    if d < 10 {
        (0x30 + d) as u8
    } else {
        (0x61 + (d - 10)) as u8
    }
}

pub open spec fn all_hex_digits(s: Seq<u8>) -> bool {
    forall|i: int| 0 <= i < s.len() ==> is_hex_digit(#[trigger] s[i])
}

pub open spec fn all_lower_hex(s: Seq<u8>) -> bool {
    forall|i: int| 0 <= i < s.len() ==> is_lower_hex(#[trigger] s[i])
}

/// The digit bytes that remain after stripping whitespace.
pub open spec fn clean_hex(s: Seq<u8>) -> Seq<u8>
    decreases s.len(),
{
    if s.len() == 0 {
        Seq::empty()
    } else if is_ws_byte(s.last()) {
        clean_hex(s.drop_last())
    } else {
        clean_hex(s.drop_last()).push(s.last())
    }
}

/// The integer a big-endian hex digit string denotes.
pub open spec fn hex_value(s: Seq<u8>) -> int
    decreases s.len(),
{
    if s.len() == 0 {
        0
    } else {
        hex_value(s.drop_last()) * 16 + hex_digit_val(s.last())
    }
}

/// The integer a big-endian byte string denotes.
pub open spec fn bytes_value(s: Seq<u8>) -> int
    decreases s.len(),
{
    if s.len() == 0 {
        0
    } else {
        bytes_value(s.drop_last()) * 256 + s.last()
    }
}

/// The big-endian `n`-byte encoding of `v % 256^n`.
pub open spec fn bytes_of(v: int, n: nat) -> Seq<u8>
    decreases n,
{
    if n == 0 {
        Seq::empty()
    } else {
        bytes_of(v / 256, (n - 1) as nat).push((v % 256) as u8)
    }
}

/// The big-endian `n`-digit lowercase hex encoding of `v % 16^n`.
pub open spec fn hex_digits_of(v: int, n: nat) -> Seq<u8>
    decreases n,
{
    if n == 0 {
        Seq::empty()
    } else {
        hex_digits_of(v / 16, (n - 1) as nat).push(digit_byte(v % 16))
    }
}

/// How many bytes the minimal big-endian encoding of `v >= 0` takes
/// (one byte for zero).
pub open spec fn byte_len_of(v: int) -> nat
    recommends
        v >= 0,
    decreases v,
{
    if v < 256 {
        1
    } else {
        1 + byte_len_of(v / 256)
    }
}

/// How many digits the minimal hex encoding of `v >= 0` takes
/// (one digit for zero).
pub open spec fn hex_len_of(v: int) -> nat
    recommends
        v >= 0,
    decreases v,
{
    if v < 16 {
        1
    } else {
        1 + hex_len_of(v / 16)
    }
}

/// ASCII bytes read as characters, the view a `String` of hex digits has.
pub open spec fn chars_of(s: Seq<u8>) -> Seq<char> {
    s.map_values(|b: u8| b as char)
}

pub proof fn lemma_bytes_value_bounds(s: Seq<u8>)
    ensures
        0 <= bytes_value(s) < pow(256, s.len()),
    decreases s.len(),
{
    if s.len() == 0 {
        assert(pow(256, 0) == 1) by {
            vstd::arithmetic::power::lemma_pow0(256);
        }
    } else {
        lemma_bytes_value_bounds(s.drop_last());
        assert(pow(256, s.len()) == 256 * pow(256, (s.len() - 1) as nat)) by {
            vstd::arithmetic::power::lemma_pow1(256);
            lemma_pow_adds(256, 1, (s.len() - 1) as nat);
        }
        assert(0 <= bytes_value(s.drop_last()) * 256 + s.last() < 256 * pow(
            256,
            (s.len() - 1) as nat,
        )) by (nonlinear_arith)
            requires
                0 <= bytes_value(s.drop_last()) < pow(256, (s.len() - 1) as nat),
                0 <= s.last() < 256,
        ;
    }
}

pub proof fn lemma_hex_value_bounds(s: Seq<u8>)
    requires
        all_hex_digits(s),
    ensures
        0 <= hex_value(s) < pow(16, s.len()),
    decreases s.len(),
{
    if s.len() == 0 {
        assert(pow(16, 0) == 1) by {
            vstd::arithmetic::power::lemma_pow0(16);
        }
    } else {
        assert(all_hex_digits(s.drop_last())) by {
            assert(forall|i: int|
                0 <= i < s.len() - 1 ==> s.drop_last()[i] == #[trigger] s[i]);
        }
        lemma_hex_value_bounds(s.drop_last());
        assert(pow(16, s.len()) == 16 * pow(16, (s.len() - 1) as nat)) by {
            vstd::arithmetic::power::lemma_pow1(16);
            lemma_pow_adds(16, 1, (s.len() - 1) as nat);
        }
        assert(0 <= hex_value(s.drop_last()) * 16 + hex_digit_val(s.last()) < 16 * pow(
            16,
            (s.len() - 1) as nat,
        )) by (nonlinear_arith)
            requires
                0 <= hex_value(s.drop_last()) < pow(16, (s.len() - 1) as nat),
                0 <= hex_digit_val(s.last()) < 16,
        ;
    }
}

/// A byte string is the canonical encoding of its own value at its own
/// length.
pub proof fn lemma_bytes_of_value(s: Seq<u8>)
    ensures
        bytes_of(bytes_value(s), s.len()) == s,
    decreases s.len(),
{
    if s.len() > 0 {
        lemma_bytes_of_value(s.drop_last());
        let v = bytes_value(s);
        assert(v == bytes_value(s.drop_last()) * 256 + s.last());
        assert(v / 256 == bytes_value(s.drop_last()) && v % 256 == s.last()) by {
            vstd::arithmetic::div_mod::lemma_fundamental_div_mod_converse(
                v,
                256,
                bytes_value(s.drop_last()),
                s.last() as int,
            );
        }
        assert(bytes_of(v, s.len()) =~= s);
    } else {
        assert(bytes_of(0, 0) =~= s);
    }
}

pub proof fn lemma_value_of_bytes(v: int, n: nat)
    requires
        0 <= v < pow(256, n),
    ensures
        bytes_value(bytes_of(v, n)) == v,
    decreases n,
{
    if n == 0 {
        assert(pow(256, 0) == 1) by {
            vstd::arithmetic::power::lemma_pow0(256);
        }
    } else {
        assert(pow(256, n) == 256 * pow(256, (n - 1) as nat)) by {
            vstd::arithmetic::power::lemma_pow1(256);
            lemma_pow_adds(256, 1, (n - 1) as nat);
        }
        assert(0 <= v / 256 < pow(256, (n - 1) as nat)) by {
            vstd::arithmetic::div_mod::lemma_fundamental_div_mod(v, 256);
        }
        lemma_value_of_bytes(v / 256, (n - 1) as nat);
        let s = bytes_of(v, n);
        assert(s.drop_last() == bytes_of(v / 256, (n - 1) as nat));
        assert(bytes_value(s) == (v / 256) * 256 + v % 256);
        assert((v / 256) * 256 + v % 256 == v) by {
            vstd::arithmetic::div_mod::lemma_fundamental_div_mod(v, 256);
        }
    }
}


/// Minimal byte length bound: `byte_len_of(v) <= n` exactly when `v` fits
/// in `n` bytes.
pub proof fn lemma_byte_len_bound(v: int, n: nat)
    requires
        v >= 0,
        n >= 1,
    ensures
        byte_len_of(v) <= n <==> v < pow(256, n),
    decreases n,
{
    assert(pow(256, 1) == 256) by {
        vstd::arithmetic::power::lemma_pow1(256);
    }
    if n == 1 {
        if v >= 256 {
            assert(byte_len_of(v / 256) >= 1);
        }
    } else {
        assert(pow(256, n) == 256 * pow(256, (n - 1) as nat)) by {
            lemma_pow_adds(256, 1, (n - 1) as nat);
        }
        lemma_pow_positive(256, (n - 1) as nat);
        if v < 256 {
            assert(v < pow(256, n)) by (nonlinear_arith)
                requires
                    v < 256,
                    pow(256, n) == 256 * pow(256, (n - 1) as nat),
                    pow(256, (n - 1) as nat) >= 1,
            ;
        } else {
            lemma_byte_len_bound(v / 256, (n - 1) as nat);
            vstd::arithmetic::div_mod::lemma_fundamental_div_mod(v, 256);
            assert(v / 256 < pow(256, (n - 1) as nat) <==> v < pow(256, n)) by (nonlinear_arith)
                requires
                    v >= 0,
                    v == 256 * (v / 256) + v % 256,
                    0 <= v % 256 < 256,
                    pow(256, n) == 256 * pow(256, (n - 1) as nat),
            ;
            assert(byte_len_of(v) == 1 + byte_len_of(v / 256));
            assert(byte_len_of(v) <= n <==> byte_len_of(v / 256) <= n - 1);
        }
    }
}

/// Minimal hex length bound: `hex_len_of(v) <= n` exactly when `v` fits in
/// `n` hex digits.
pub proof fn lemma_hex_len_bound(v: int, n: nat)
    requires
        v >= 0,
        n >= 1,
    ensures
        hex_len_of(v) <= n <==> v < pow(16, n),
    decreases n,
{
    assert(pow(16, 1) == 16) by {
        vstd::arithmetic::power::lemma_pow1(16);
    }
    if n == 1 {
        if v >= 16 {
            assert(hex_len_of(v / 16) >= 1);
        }
    } else {
        assert(pow(16, n) == 16 * pow(16, (n - 1) as nat)) by {
            lemma_pow_adds(16, 1, (n - 1) as nat);
        }
        lemma_pow_positive(16, (n - 1) as nat);
        if v < 16 {
            assert(v < pow(16, n)) by (nonlinear_arith)
                requires
                    v < 16,
                    pow(16, n) == 16 * pow(16, (n - 1) as nat),
                    pow(16, (n - 1) as nat) >= 1,
            ;
        } else {
            lemma_hex_len_bound(v / 16, (n - 1) as nat);
            vstd::arithmetic::div_mod::lemma_fundamental_div_mod(v, 16);
            assert(v / 16 < pow(16, (n - 1) as nat) <==> v < pow(16, n)) by (nonlinear_arith)
                requires
                    v >= 0,
                    v == 16 * (v / 16) + v % 16,
                    0 <= v % 16 < 16,
                    pow(16, n) == 16 * pow(16, (n - 1) as nat),
            ;
            assert(hex_len_of(v) == 1 + hex_len_of(v / 16));
            assert(hex_len_of(v) <= n <==> hex_len_of(v / 16) <= n - 1);
        }
    }
}

/// Widening a byte encoding only prepends zero bytes.
pub proof fn lemma_bytes_of_widen(v: int, m: nat, n: nat)
    requires
        0 <= v < pow(256, m),
        1 <= m <= n,
    ensures
        bytes_of(v, n) == Seq::new((n - m) as nat, |i: int| 0u8) + bytes_of(v, m),
    decreases n,
{
    if n == m {
        assert(bytes_of(v, n) =~= Seq::new(0, |i: int| 0u8) + bytes_of(v, m));
    } else {
        lemma_value_of_bytes(v, m);
        lemma_byte_len_bound(v, m + 1);
        lemma_byte_len_bound(v, n);
        assert(pow(256, m + 1) == 256 * pow(256, m)) by {
            vstd::arithmetic::power::lemma_pow1(256);
            lemma_pow_adds(256, 1, m);
        }
        lemma_pow_positive(256, m);
        if m + 1 <= n {
            assert(v < pow(256, m + 1)) by (nonlinear_arith)
                requires
                    0 <= v < pow(256, m),
                    pow(256, m + 1) == 256 * pow(256, m),
                    pow(256, m) >= 1,
            ;
        }
        lemma_bytes_of_widen(v, m, (n - 1) as nat);
        // peel the most significant byte of the (n)-wide form
        let wide = bytes_of(v, n);
        let prev = bytes_of(v, (n - 1) as nat);
        lemma_bytes_of_msb(v, n);
        assert(wide =~= seq![bytes_msb(v, n)] + prev);
        assert(v < pow(256, (n - 1) as nat)) by {
            lemma_byte_len_bound(v, (n - 1) as nat);
            if m < n - 1 {
                assert(pow(256, m) <= pow(256, (n - 1) as nat)) by {
                    lemma_pow_strictly_increases(256, m, (n - 1) as nat);
                }
            }
        }
        assert(bytes_msb(v, n) == 0) by {
            lemma_msb_zero(v, n);
        }
        assert(bytes_of(v, n) =~= Seq::new((n - m) as nat, |i: int| 0u8) + bytes_of(v, m));
    }
}

/// The most significant byte of the `n`-wide encoding.
pub open spec fn bytes_msb(v: int, n: nat) -> u8
    decreases n,
{
    if n <= 1 {
        (v % 256) as u8
    } else {
        bytes_msb(v / 256, (n - 1) as nat)
    }
}

pub proof fn lemma_bytes_of_msb(v: int, n: nat)
    requires
        n >= 1,
    ensures
        bytes_of(v, n) == seq![bytes_msb(v, n)] + bytes_of(v, (n - 1) as nat),
    decreases n,
{
    if n == 1 {
        assert(bytes_of(v / 256, 0) =~= Seq::<u8>::empty());
        assert(bytes_of(v, 1) == Seq::<u8>::empty().push((v % 256) as u8));
        assert(bytes_of(v, 1) =~= seq![bytes_msb(v, 1)] + bytes_of(v, 0));
    } else {
        lemma_bytes_of_msb(v / 256, (n - 1) as nat);
        assert(bytes_of(v, n) =~= seq![bytes_msb(v, n)] + bytes_of(v, (n - 1) as nat));
    }
}

/// Widening a hex encoding only prepends `'0'` digits.
pub proof fn lemma_hex_digits_of_widen(v: int, m: nat, n: nat)
    requires
        0 <= v < pow(16, m),
        1 <= m <= n,
    ensures
        hex_digits_of(v, n) == Seq::new((n - m) as nat, |i: int| 0x30u8) + hex_digits_of(v, m),
    decreases n,
{
    if n == m {
        assert(hex_digits_of(v, n) =~= Seq::new(0, |i: int| 0x30u8) + hex_digits_of(v, m));
    } else {
        lemma_hex_len_bound(v, m);
        lemma_hex_len_bound(v, (n - 1) as nat);
        if m < n - 1 {
            lemma_pow_strictly_increases(16, m, (n - 1) as nat);
        }
        lemma_hex_digits_of_widen(v, m, (n - 1) as nat);
        lemma_hex_digits_of_msb(v, n);
        lemma_hex_msb_zero(v, n);
        assert(hex_digits_of(v, n) =~= Seq::new((n - m) as nat, |i: int| 0x30u8) + hex_digits_of(
            v,
            m,
        ));
    }
}

/// The most significant digit of the `n`-wide hex encoding.
pub open spec fn hex_msb(v: int, n: nat) -> u8
    decreases n,
{
    if n <= 1 {
        digit_byte(v % 16)
    } else {
        hex_msb(v / 16, (n - 1) as nat)
    }
}

pub proof fn lemma_hex_digits_of_msb(v: int, n: nat)
    requires
        n >= 1,
    ensures
        hex_digits_of(v, n) == seq![hex_msb(v, n)] + hex_digits_of(v, (n - 1) as nat),
    decreases n,
{
    if n == 1 {
        assert(hex_digits_of(v / 16, 0) =~= Seq::<u8>::empty());
        assert(hex_digits_of(v, 1) == Seq::<u8>::empty().push(digit_byte(v % 16)));
        assert(hex_digits_of(v, 1) =~= seq![hex_msb(v, 1)] + hex_digits_of(v, 0));
    } else {
        lemma_hex_digits_of_msb(v / 16, (n - 1) as nat);
        assert(hex_digits_of(v, n) =~= seq![hex_msb(v, n)] + hex_digits_of(v, (n - 1) as nat));
    }
}

proof fn lemma_hex_msb_zero(v: int, n: nat)
    requires
        n >= 1,
        0 <= v < pow(16, (n - 1) as nat),
    ensures
        hex_msb(v, n) == 0x30u8,
    decreases n,
{
    if n == 1 {
        assert(pow(16, 0) == 1) by {
            vstd::arithmetic::power::lemma_pow0(16);
        }
    } else {
        assert(pow(16, (n - 1) as nat) == 16 * pow(16, (n - 2) as nat)) by {
            vstd::arithmetic::power::lemma_pow1(16);
            lemma_pow_adds(16, 1, (n - 2) as nat);
        }
        vstd::arithmetic::div_mod::lemma_fundamental_div_mod(v, 16);
        assert(0 <= v / 16 < pow(16, (n - 2) as nat)) by (nonlinear_arith)
            requires
                0 <= v,
                v < 16 * pow(16, (n - 2) as nat),
                0 <= v % 16 < 16,
                v == 16 * (v / 16) + v % 16,
        ;
        lemma_hex_msb_zero(v / 16, (n - 1) as nat);
    }
}

/// The leading digit of a full-width encoding is `'0'` exactly when the
/// value also fits one digit shorter.
pub proof fn lemma_hex_first_digit_zero(v: int, n: nat)
    requires
        n >= 1,
        0 <= v < pow(16, n),
    ensures
        hex_digits_of(v, n)[0] == 0x30u8 <==> v < pow(16, (n - 1) as nat),
{
    lemma_hex_digits_of_msb(v, n);
    lemma_hex_digits_are_lower(v, n);
    lemma_hex_digits_are_lower(v, (n - 1) as nat);
    let s = hex_digits_of(v, n);
    let tail = hex_digits_of(v, (n - 1) as nat);
    assert(s == seq![hex_msb(v, n)] + tail);
    assert(s[0] == hex_msb(v, n));
    if v < pow(16, (n - 1) as nat) {
        lemma_hex_msb_zero(v, n);
    } else {
        if s[0] == 0x30u8 {
            // a leading zero would bound the value one digit lower
            lemma_value_of_hex_digits(v, n);
            lemma_hex_value_leading_zero(s);
            assert(s.subrange(1, s.len() as int) =~= tail);
            lemma_hex_value_bounds(tail);
            assert(false);
        }
    }
}

/// Dropping a leading `'0'` does not change the value.
pub proof fn lemma_hex_value_leading_zero(s: Seq<u8>)
    requires
        s.len() >= 1,
        s[0] == 0x30u8,
    ensures
        hex_value(s) == hex_value(s.subrange(1, s.len() as int)),
    decreases s.len(),
{
    if s.len() == 1 {
        assert(s.drop_last().len() == 0);
        assert(hex_value(s.drop_last()) == 0);
        assert(hex_value(s) == hex_digit_val(0x30u8));
        assert(s.subrange(1, 1) =~= Seq::<u8>::empty());
        assert(hex_value(Seq::<u8>::empty()) == 0);
    } else {
        lemma_hex_value_leading_zero(s.drop_last());
        assert(s.subrange(1, s.len() as int).drop_last() =~= s.drop_last().subrange(
            1,
            s.len() - 1,
        ));
        assert(s.subrange(1, s.len() as int).last() == s.last());
    }
}

/// Elements of a canonical encoding are lowercase hex digits (ASCII).
pub proof fn lemma_hex_digits_are_lower(v: int, n: nat)
    ensures
        all_lower_hex(hex_digits_of(v, n)),
        all_hex_digits(hex_digits_of(v, n)),
        hex_digits_of(v, n).len() == n,
    decreases n,
{
    if n > 0 {
        lemma_hex_digits_are_lower(v / 16, (n - 1) as nat);
        let s = hex_digits_of(v, n);
        assert(forall|i: int|
            0 <= i < n - 1 ==> #[trigger] s[i] == hex_digits_of(v / 16, (n - 1) as nat)[i]);
        assert(is_lower_hex(s[n - 1]));
    }
}

pub proof fn lemma_bytes_of_len(v: int, n: nat)
    ensures
        bytes_of(v, n).len() == n,
    decreases n,
{
    if n > 0 {
        lemma_bytes_of_len(v / 256, (n - 1) as nat);
    }
}

/// A canonical value below `16^n` reads back as itself.
pub proof fn lemma_value_of_hex_digits(v: int, n: nat)
    requires
        0 <= v < pow(16, n),
    ensures
        hex_value(hex_digits_of(v, n)) == v,
    decreases n,
{
    if n == 0 {
        assert(pow(16, 0) == 1) by {
            vstd::arithmetic::power::lemma_pow0(16);
        }
    } else {
        assert(pow(16, n) == 16 * pow(16, (n - 1) as nat)) by {
            vstd::arithmetic::power::lemma_pow1(16);
            lemma_pow_adds(16, 1, (n - 1) as nat);
        }
        assert(0 <= v / 16 < pow(16, (n - 1) as nat)) by {
            vstd::arithmetic::div_mod::lemma_fundamental_div_mod(v, 16);
        }
        lemma_value_of_hex_digits(v / 16, (n - 1) as nat);
        let s = hex_digits_of(v, n);
        assert(s.drop_last() == hex_digits_of(v / 16, (n - 1) as nat));
        assert(hex_digit_val(digit_byte(v % 16)) == v % 16);
        assert(hex_value(s) == (v / 16) * 16 + v % 16);
        assert((v / 16) * 16 + v % 16 == v) by {
            vstd::arithmetic::div_mod::lemma_fundamental_div_mod(v, 16);
        }
    }
}

/// A lowercase-canonical digit string is the canonical encoding of its own
/// value.
pub proof fn lemma_hex_digits_of_value(s: Seq<u8>)
    requires
        all_lower_hex(s),
    ensures
        hex_digits_of(hex_value(s), s.len()) == s,
    decreases s.len(),
{
    if s.len() > 0 {
        assert(all_lower_hex(s.drop_last())) by {
            assert(forall|i: int|
                0 <= i < s.len() - 1 ==> s.drop_last()[i] == #[trigger] s[i]);
        }
        lemma_hex_digits_of_value(s.drop_last());
        let v = hex_value(s);
        let d = hex_digit_val(s.last());
        assert(0 <= d < 16);
        assert(v / 16 == hex_value(s.drop_last()) && v % 16 == d) by {
            vstd::arithmetic::div_mod::lemma_fundamental_div_mod_converse(
                v,
                16,
                hex_value(s.drop_last()),
                d,
            );
        }
        assert(digit_byte(d) == s.last());
        assert(hex_digits_of(v, s.len()) =~= s);
    } else {
        assert(hex_digits_of(0, 0) =~= s);
    }
}

/// A digit string with a nonzero leading digit denotes at least `16^(n-1)`.
proof fn lemma_hex_value_lower_bounds(s: Seq<u8>)
    requires
        all_hex_digits(s),
        s.len() >= 1,
        s[0] != 0x30u8,
    ensures
        hex_value(s) >= pow(16, (s.len() - 1) as nat),
    decreases s.len(),
{
    if s.len() == 1 {
        assert(pow(16, 0) == 1) by {
            vstd::arithmetic::power::lemma_pow0(16);
        }
        assert(hex_digit_val(s[0]) >= 1);
        assert(hex_value(s) == hex_value(s.drop_last()) * 16 + hex_digit_val(s.last()));
        assert(s.drop_last().len() == 0);
    } else {
        assert(all_hex_digits(s.drop_last()) && s.drop_last()[0] == s[0]) by {
            assert(forall|i: int|
                0 <= i < s.len() - 1 ==> s.drop_last()[i] == #[trigger] s[i]);
        }
        lemma_hex_value_lower_bounds(s.drop_last());
        assert(pow(16, (s.len() - 1) as nat) == pow(16, (s.len() - 2) as nat) * 16) by {
            vstd::arithmetic::power::lemma_pow1(16);
            lemma_pow_adds(16, (s.len() - 2) as nat, 1);
        }
        assert(hex_value(s.drop_last()) * 16 >= pow(16, (s.len() - 2) as nat) * 16)
            by (nonlinear_arith)
            requires
                hex_value(s.drop_last()) >= pow(16, (s.len() - 2) as nat),
        ;
        assert(hex_digit_val(s.last()) >= 0);
    }
}

/// Pairs of hex digits read as one byte each.
pub open spec fn pair_bytes(s: Seq<u8>) -> Seq<u8>
    decreases s.len(),
{
    if s.len() < 2 {
        Seq::empty()
    } else {
        pair_bytes(s.drop_last().drop_last()).push(
            (16 * hex_digit_val(s[s.len() - 2]) + hex_digit_val(s[s.len() - 1])) as u8,
        )
    }
}

pub proof fn lemma_pair_bytes_value(s: Seq<u8>)
    requires
        all_hex_digits(s),
        s.len() % 2 == 0,
    ensures
        pair_bytes(s).len() == s.len() / 2,
        bytes_value(pair_bytes(s)) == hex_value(s),
    decreases s.len(),
{
    if s.len() >= 2 {
        let dd = s.drop_last().drop_last();
        assert(all_hex_digits(dd)) by {
            assert(forall|i: int| 0 <= i < s.len() - 2 ==> dd[i] == #[trigger] s[i]);
        }
        lemma_pair_bytes_value(dd);
        let hi = hex_digit_val(s[s.len() - 2]);
        let lo = hex_digit_val(s[s.len() - 1]);
        assert(s.drop_last().drop_last() == dd);
        assert(s.drop_last().last() == s[s.len() - 2]);
        assert(s.last() == s[s.len() - 1]);
        assert(hex_value(s.drop_last()) == hex_value(dd) * 16 + hi);
        assert(hex_value(s) == (hex_value(dd) * 16 + hi) * 16 + lo);
        assert((hex_value(dd) * 16 + hi) * 16 + lo == hex_value(dd) * 256 + (16 * hi + lo))
            by (nonlinear_arith);
        let pb = pair_bytes(s);
        assert(pb.drop_last() == pair_bytes(dd));
        assert(pb.last() == (16 * hi + lo) as u8);
        assert(0 <= 16 * hi + lo < 256);
        assert(bytes_value(pb) == bytes_value(pair_bytes(dd)) * 256 + (16 * hi + lo));
    }
}

/// Each byte expanded into its two lowercase hex digits.
pub open spec fn expand_hex(b: Seq<u8>) -> Seq<u8>
    decreases b.len(),
{
    if b.len() == 0 {
        Seq::empty()
    } else {
        expand_hex(b.drop_last()) + seq![
            digit_byte(b.last() as int / 16),
            digit_byte(b.last() as int % 16),
        ]
    }
}

pub proof fn lemma_expand_hex_digits(b: Seq<u8>)
    ensures
        expand_hex(b).len() == 2 * b.len(),
        all_lower_hex(expand_hex(b)),
        hex_value(expand_hex(b)) == bytes_value(b),
    decreases b.len(),
{
    if b.len() > 0 {
        lemma_expand_hex_digits(b.drop_last());
        let e = expand_hex(b);
        let ed = expand_hex(b.drop_last());
        let hi = digit_byte(b.last() as int / 16);
        let lo = digit_byte(b.last() as int % 16);
        assert(e == ed + seq![hi, lo]);
        assert(e.drop_last() =~= ed.push(hi));
        assert(e.drop_last().drop_last() =~= ed);
        assert(hex_value(e.drop_last()) == hex_value(ed) * 16 + hex_digit_val(hi));
        assert(hex_value(e) == (hex_value(ed) * 16 + hex_digit_val(hi)) * 16 + hex_digit_val(lo));
        assert(hex_digit_val(hi) == b.last() as int / 16 && hex_digit_val(lo) == b.last() as int % 16);
        assert((hex_value(ed) * 16 + b.last() as int / 16) * 16 + b.last() as int % 16 == hex_value(ed)
            * 256 + (16 * (b.last() as int / 16) + b.last() as int % 16)) by (nonlinear_arith);
        assert(16 * (b.last() as int / 16) + b.last() as int % 16 == b.last() as int) by {
            vstd::arithmetic::div_mod::lemma_fundamental_div_mod(b.last() as int, 16);
        }
        assert(all_lower_hex(e)) by {
            assert(forall|i: int| 0 <= i < ed.len() ==> e[i] == #[trigger] ed[i]);
            assert(e[e.len() - 2] == hi && e[e.len() - 1] == lo);
        }
    }
}

/// `pow(16, 2k) == pow(256, k)`: a hex width and its byte width denote the
/// same bound.
pub proof fn lemma_pow16_pow256(k: nat)
    ensures
        pow(16, 2 * k) == pow(256, k),
{
    lemma_pow_multiplies(16, 2, k);
    assert(pow(16, 2) == 256) by {
        vstd::arithmetic::power::lemma_pow1(16);
        lemma_pow_adds(16, 1, 1);
    }
}

/// Cleaning leaves a pure digit string untouched.
pub proof fn lemma_clean_hex_of_digits(s: Seq<u8>)
    requires
        forall|i: int| 0 <= i < s.len() ==> !is_ws_byte(#[trigger] s[i]),
    ensures
        clean_hex(s) == s,
    decreases s.len(),
{
    if s.len() > 0 {
        assert(forall|i: int|
            0 <= i < s.len() - 1 ==> s.drop_last()[i] == #[trigger] s[i]);
        lemma_clean_hex_of_digits(s.drop_last());
        assert(clean_hex(s) =~= s);
    } else {
        assert(clean_hex(s) =~= s);
    }
}

/// One step of cleaning, matching a left-to-right scan.
pub proof fn lemma_clean_hex_step(s: Seq<u8>, i: int)
    requires
        0 <= i < s.len(),
    ensures
        clean_hex(s.take(i + 1)) == if is_ws_byte(s[i]) {
            clean_hex(s.take(i))
        } else {
            clean_hex(s.take(i)).push(s[i])
        },
{
    assert(s.take(i + 1).drop_last() =~= s.take(i));
    assert(s.take(i + 1).last() == s[i]);
}

/// A byte string denotes at least its last byte.
pub proof fn lemma_bytes_value_at_least_last(s: Seq<u8>)
    requires
        s.len() >= 1,
    ensures
        bytes_value(s) >= s.last(),
{
    lemma_bytes_value_bounds(s.drop_last());
    assert(bytes_value(s) == bytes_value(s.drop_last()) * 256 + s.last());
    assert(bytes_value(s.drop_last()) * 256 >= 0) by (nonlinear_arith)
        requires
            bytes_value(s.drop_last()) >= 0,
    ;
}

pub open spec fn max_nat(a: nat, b: nat) -> nat {
    if a >= b {
        a
    } else {
        b
    }
}

/// Euclidean remainder, recovered from the truncated remainder a bignum
/// `%` gives on a negative dividend.
pub proof fn lemma_trunc_rem_to_euclid(a: int, m: int)
    requires
        a < 0,
        m > 0,
    ensures
        (-a) % m == 0 ==> a % m == 0,
        (-a) % m != 0 ==> a % m == m - (-a) % m,
{
    vstd::arithmetic::div_mod::lemma_fundamental_div_mod(-a, m);
    let q = (-a) / m;
    let r0 = (-a) % m;
    assert(0 <= r0 < m) by {
        vstd::arithmetic::div_mod::lemma_mod_division_less_than_divisor(-a, m);
    }
    if r0 == 0 {
        assert(a == m * (-q) + 0) by (nonlinear_arith)
            requires
                -a == m * q + 0,
        ;
        vstd::arithmetic::div_mod::lemma_fundamental_div_mod_converse_mod(a, m, -q, 0);
    } else {
        assert(a == m * (-q - 1) + (m - r0)) by (nonlinear_arith)
            requires
                -a == m * q + r0,
        ;
        vstd::arithmetic::div_mod::lemma_fundamental_div_mod_converse_mod(a, m, -q - 1, m - r0);
    }
}

/// What is cleaned from a prefix stays a prefix of the cleaned whole.
pub proof fn lemma_clean_hex_prefix(s: Seq<u8>, i: int)
    requires
        0 <= i <= s.len(),
    ensures
        clean_hex(s.take(i)).len() <= clean_hex(s).len(),
        clean_hex(s).take(clean_hex(s.take(i)).len() as int) == clean_hex(s.take(i)),
    decreases s.len() - i,
{
    if i == s.len() {
        assert(s.take(i) =~= s);
    } else {
        lemma_clean_hex_step(s, i);
        lemma_clean_hex_prefix(s, i + 1);
        let shorter = clean_hex(s.take(i));
        let longer = clean_hex(s.take(i + 1));
        assert(shorter.len() <= longer.len());
        assert(longer.take(shorter.len() as int) == shorter) by {
            if is_ws_byte(s[i]) {
            } else {
                assert(longer == shorter.push(s[i]));
                assert(longer.take(shorter.len() as int) =~= shorter);
            }
        }
        assert(clean_hex(s).take(shorter.len() as int) =~= shorter) by {
            assert(clean_hex(s).take(longer.len() as int) == longer);
            assert(forall|j: int|
                0 <= j < shorter.len() ==> clean_hex(s).take(longer.len() as int)[j]
                    == #[trigger] clean_hex(s)[j]);
        }
    }
}

proof fn lemma_msb_zero(v: int, n: nat)
    requires
        n >= 1,
        0 <= v < pow(256, (n - 1) as nat),
    ensures
        bytes_msb(v, n) == 0,
    decreases n,
{
    if n == 1 {
        assert(pow(256, 0) == 1) by {
            vstd::arithmetic::power::lemma_pow0(256);
        }
    } else {
        assert(pow(256, (n - 1) as nat) == 256 * pow(256, (n - 2) as nat)) by {
            vstd::arithmetic::power::lemma_pow1(256);
            lemma_pow_adds(256, 1, (n - 2) as nat);
        }
        assert(0 <= v / 256 < pow(256, (n - 2) as nat)) by (nonlinear_arith)
            requires
                0 <= v,
                v < 256 * pow(256, (n - 2) as nat),
                v / 256 == (v - v % 256) / 256,
                0 <= v % 256 < 256,
                v == 256 * (v / 256) + v % 256,
        ;
        lemma_msb_zero(v / 256, (n - 1) as nat);
    }
}

} // verus!
