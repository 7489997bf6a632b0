//! An arbitrary-precision non-negative integer carrying a hex-width
//! annotation, so that serializing it reproduces the exact byte strings the
//! protocol's peers expect. The width travels with the value through every
//! operation, because interoperating peers must agree on the exact bytes
//! each value feeds to the hash.

use crate::bigint::{
    bigint_add, bigint_eq, bigint_from_bytes_be, bigint_is_negative, bigint_is_zero, bigint_modpow,
    bigint_mul, bigint_rem, bigint_sub, bigint_to_bytes_be, bigint_value,
};
use crate::numrep::{
    all_hex_digits, all_lower_hex, bytes_of, bytes_value, byte_len_of, chars_of, clean_hex,
    expand_hex, hex_digit_val, hex_digits_of, hex_len_of, hex_value, is_hex_digit,
    lemma_bytes_of_widen, lemma_bytes_value_bounds, lemma_byte_len_bound, lemma_clean_hex_prefix,
    lemma_clean_hex_step, lemma_expand_hex_digits, lemma_hex_digits_of_value,
    lemma_hex_digits_of_widen, lemma_hex_first_digit_zero, lemma_hex_len_bound,
    lemma_hex_value_bounds, lemma_hex_value_leading_zero, lemma_pair_bytes_value,
    lemma_pow16_pow256, lemma_trunc_rem_to_euclid, lemma_value_of_bytes, max_nat, pair_bytes,
};
use crate::SrpError;
use num_bigint::BigInt;
use vstd::arithmetic::power::pow;
use vstd::string::StringSliceAdditionalSpecFns;
use vstd::prelude::*;

verus! {

/// Relies on `rand::thread_rng` (a CSPRNG seeded from the operating system)
/// and `rand::RngCore::fill_bytes`; nothing can be promised about the bytes
/// beyond their count.
#[verifier::external_body]
fn random_bytes(n: usize) -> (r: Vec<u8>)
    ensures
        r@.len() == n,
{
    let mut rng = rand::thread_rng();
    let mut buf = vec![0u8; n];
    rand::RngCore::fill_bytes(&mut rng, &mut buf);
    buf
}

/// Relies on `String::from_utf8`: ASCII bytes decode to exactly those
/// characters, and the precondition keeps every byte in ASCII range, so the
/// conversion cannot fail.
#[verifier::external_body]
fn string_from_ascii(v: Vec<u8>) -> (r: String)
    requires
        forall|i: int| 0 <= i < v@.len() ==> v@[i] < 0x80,
    ensures
        r@ == chars_of(v@),
{
    match String::from_utf8(v) {
        Ok(s) => s,
        Err(_) => String::new(),
    }
}

/// Numeric value of an accepted hex digit byte.
pub(crate) fn hex_digit_value(b: u8) -> (r: u8)
    requires
        is_hex_digit(b),
    ensures
        r as int == hex_digit_val(b),
        r < 16,
{
    if 0x30 <= b && b <= 0x39 {
        b - 0x30
    } else if 0x61 <= b {
        b - 0x61 + 10
    } else {
        b - 0x41 + 10
    }
}

/// Lowercase digit byte for a value below 16.
fn byte_for_digit(d: u8) -> (r: u8)
    requires
        d < 16,
    ensures
        r == crate::numrep::digit_byte(d as int),
{
    if d < 10 {
        0x30 + d
    } else {
        0x61 + (d - 10)
    }
}

/// An arbitrary-precision integer together with the hex width its
/// serialized form must occupy.
#[derive(Debug)]
pub struct SrpInteger {
    value: BigInt,
    hex_length: Option<usize>,
}

/// The value the bitwise XOR of two width-annotated integers denotes: both
/// operands are serialized to the byte width of the wider one and combined
/// byte by byte.
pub open spec fn xor_val(av: int, wa: nat, bv: int, wb: nat) -> int {
    let half = max_nat(wa, wb) / 2;
    bytes_value(
        Seq::new(half, |i: int| bytes_of(av, half)[i] ^ bytes_of(bv, half)[i]),
    )
}

impl SrpInteger {
    /// The integer this value denotes.
    pub closed spec fn val(&self) -> int {
        bigint_value(self.value)
    }

    /// The recorded hex width, if any.
    pub closed spec fn width(&self) -> Option<usize> {
        self.hex_length
    }

    /// The recorded width, read as a plain number (zero when absent).
    pub open spec fn width_nat(&self) -> nat {
        match self.width() {
            Some(w) => w as nat,
            None => 0,
        }
    }

    /// The value fits its recorded width, so `to_hex` yields exactly that
    /// many digits.
    pub open spec fn sized(&self) -> bool {
        match self.width() {
            Some(w) => 0 <= self.val() < pow(16, w as nat),
            None => false,
        }
    }

    /// Sized with a positive, even width: the serialized form is a whole
    /// number of bytes, as every hash input must be.
    pub open spec fn hashable(&self) -> bool {
        &&& self.sized()
        &&& match self.width() {
            Some(w) => w % 2 == 0 && w > 0,
            None => false,
        }
    }

    /// The integer zero, carrying no width: serializing it directly fails
    /// with `UnsizedHex`, as it only stands in for a missing operand.
    pub fn zero() -> (r: Self)
        ensures
            r.val() == 0,
            r.width() is None,
    {
        let empty: [u8; 0] = [];
        let value = bigint_from_bytes_be(empty.as_slice());
        proof {
            assert(empty@ =~= Seq::<u8>::empty());
        }
        SrpInteger { value, hex_length: None }
    }

    /// Big-endian interpretation of raw bytes; the width records two hex
    /// digits per byte.
    pub fn from_bytes(bytes: &[u8]) -> (r: Self)
        requires
            bytes@.len() * 2 <= usize::MAX,
        ensures
            r.val() == bytes_value(bytes@),
            r.width() == Some((bytes@.len() * 2) as usize),
            r.width_nat() == bytes@.len() * 2,
            r.sized(),
            bytes@.len() > 0 ==> r.hashable(),
    {
        let value = bigint_from_bytes_be(bytes);
        proof {
            lemma_bytes_value_bounds(bytes@);
            lemma_pow16_pow256(bytes@.len());
        }
        SrpInteger { value, hex_length: Some(bytes.len() * 2) }
    }

    /// `n` bytes from the CSPRNG, read as an integer of width `2n`.
    pub fn random_integer(bytes: usize) -> (r: Self)
        requires
            bytes * 2 <= usize::MAX,
        ensures
            r.val() >= 0,
            r.width() == Some((bytes * 2) as usize),
            r.sized(),
            bytes > 0 ==> r.hashable(),
    {
        let buf = random_bytes(bytes);
        Self::from_bytes(buf.as_slice())
    }

    /// Numeric equality; the width annotations play no part.
    pub fn equals(&self, other: &Self) -> (r: bool)
        ensures
            r == (self.val() == other.val()),
    {
        bigint_eq(&self.value, &other.value)
    }

    pub fn is_zero(&self) -> (r: bool)
        ensures
            r == (self.val() == 0),
    {
        bigint_is_zero(&self.value)
    }

    /// Product; the width is inherited from `self`, or from `other` when
    /// `self` has none.
    pub fn multiply(&self, other: &Self) -> (r: Self)
        ensures
            r.val() == self.val() * other.val(),
            r.width() == (if self.width() is Some {
                self.width()
            } else {
                other.width()
            }),
    {
        let value = bigint_mul(&self.value, &other.value);
        let hex_length = match self.hex_length {
            Some(w) => Some(w),
            None => other.hex_length,
        };
        SrpInteger { value, hex_length }
    }

    /// Sum; width inherited as for `multiply`.
    pub fn add(&self, other: &Self) -> (r: Self)
        ensures
            r.val() == self.val() + other.val(),
            r.width() == (if self.width() is Some {
                self.width()
            } else {
                other.width()
            }),
    {
        let value = bigint_add(&self.value, &other.value);
        let hex_length = match self.hex_length {
            Some(w) => Some(w),
            None => other.hex_length,
        };
        SrpInteger { value, hex_length }
    }

    /// Difference, which may be negative; callers reduce with `mod_` before
    /// serializing. Width inherited as for `multiply`.
    pub fn subtract(&self, other: &Self) -> (r: Self)
        ensures
            r.val() == self.val() - other.val(),
            r.width() == (if self.width() is Some {
                self.width()
            } else {
                other.width()
            }),
    {
        let value = bigint_sub(&self.value, &other.value);
        let hex_length = match self.hex_length {
            Some(w) => Some(w),
            None => other.hex_length,
        };
        SrpInteger { value, hex_length }
    }

    /// Euclidean reduction: the result lies in `[0, modulus)` even for a
    /// negative dividend. Width comes from the modulus.
    pub fn mod_(&self, modulus: &Self) -> (r: Self)
        requires
            modulus.val() > 0,
        ensures
            r.val() == self.val() % modulus.val(),
            r.val() < modulus.val(),
            r.val() >= 0,
            r.width() == modulus.width(),
            modulus.sized() ==> r.sized(),
            modulus.hashable() ==> r.hashable(),
    {
        let rem = bigint_rem(&self.value, &modulus.value);
        proof {
            vstd::arithmetic::div_mod::lemma_mod_division_less_than_divisor(
                self.val(),
                modulus.val(),
            );
            if self.val() < 0 {
                lemma_trunc_rem_to_euclid(self.val(), modulus.val());
                vstd::arithmetic::div_mod::lemma_mod_division_less_than_divisor(
                    -self.val(),
                    modulus.val(),
                );
            }
        }
        let value = if bigint_is_negative(&rem) {
            bigint_add(&rem, &modulus.value)
        } else {
            rem
        };
        SrpInteger { value, hex_length: modulus.hex_length }
    }

    /// Alias for `mod_`, for callers that prefer the spelled-out name.
    pub fn modulo(&self, modulus: &Self) -> (r: Self)
        requires
            modulus.val() > 0,
        ensures
            r.val() == self.val() % modulus.val(),
            r.val() >= 0,
            r.width() == modulus.width(),
            modulus.sized() ==> r.sized(),
            modulus.hashable() ==> r.hashable(),
    {
        self.mod_(modulus)
    }

    /// Modular exponentiation: `self ^ exp mod modulus`, in `[0, modulus)`
    /// whatever the sign of `self`. Width comes from the modulus.
    pub fn mod_pow(&self, exp: &Self, modulus: &Self) -> (r: Self)
        requires
            exp.val() >= 0,
            modulus.val() > 0,
        ensures
            r.val() == pow(self.val(), exp.val() as nat) % modulus.val(),
            r.val() >= 0,
            r.val() < modulus.val(),
            r.width() == modulus.width(),
            modulus.sized() ==> r.sized(),
            modulus.hashable() ==> r.hashable(),
    {
        let value = bigint_modpow(&self.value, &exp.value, &modulus.value);
        proof {
            vstd::arithmetic::div_mod::lemma_mod_division_less_than_divisor(
                pow(self.val(), exp.val() as nat),
                modulus.val(),
            );
        }
        SrpInteger { value, hex_length: modulus.hex_length }
    }

    /// `(self - k·g^x) ^ (a + u·x) mod modulus`: the client's premaster
    /// secret, where `self` is the server's public ephemeral.
    pub fn subtract_mult_pow(
        &self,
        k: &Self,
        g: &Self,
        x: &Self,
        a: &Self,
        u: &Self,
        modulus: &Self,
    ) -> (r: Self)
        requires
            x.val() >= 0,
            a.val() >= 0,
            u.val() >= 0,
            modulus.val() > 0,
        ensures
            r.val() == pow(
                self.val() - k.val() * (pow(g.val(), x.val() as nat) % modulus.val()),
                (a.val() + u.val() * x.val()) as nat,
            ) % modulus.val(),
            r.val() >= 0,
            r.val() < modulus.val(),
            r.width() == modulus.width(),
            modulus.sized() ==> r.sized(),
            modulus.hashable() ==> r.hashable(),
    {
        proof {
            vstd::arithmetic::mul::lemma_mul_nonnegative(u.val(), x.val());
        }
        let gx = g.mod_pow(x, modulus);
        let kgx = k.multiply(&gx);
        let b_minus_kgx = self.subtract(&kgx);
        let ux = u.multiply(x);
        let a_plus_ux = a.add(&ux);
        b_minus_kgx.mod_pow(&a_plus_ux, modulus)
    }

    /// `(k·v + g^b) mod modulus`: the server's public ephemeral.
    pub fn add_mult_pow(&self, k: &Self, v: &Self, g: &Self, b: &Self, modulus: &Self) -> (r: Self)
        requires
            b.val() >= 0,
            modulus.val() > 0,
        ensures
            r.val() == (k.val() * v.val() + pow(g.val(), b.val() as nat) % modulus.val())
                % modulus.val(),
            r.val() >= 0,
            r.val() < modulus.val(),
            r.width() == modulus.width(),
            modulus.sized() ==> r.sized(),
            modulus.hashable() ==> r.hashable(),
    {
        let gb = g.mod_pow(b, modulus);
        let kv = k.multiply(v);
        kv.add(&gb).mod_(modulus)
    }

    /// Parse a hex string: ASCII whitespace is stripped, every remaining
    /// byte must be a hex digit, and the count of digits becomes the
    /// recorded width.
    pub fn from_hex(hex: &str) -> (r: Result<Self, SrpError>)
        ensures
            ({
                let cleaned = clean_hex(hex.spec_bytes());
                &&& (r is Ok <==> cleaned.len() > 0 && all_hex_digits(cleaned))
                &&& (r matches Ok(x) ==> {
                    &&& x.val() == hex_value(cleaned)
                    &&& x.val() >= 0
                    &&& x.width() == Some(cleaned.len() as usize)
                    &&& x.width_nat() == cleaned.len()
                    &&& x.sized()
                    &&& cleaned.len() % 2 == 0 ==> x.hashable()
                })
                &&& (r matches Err(e) ==> e == SrpError::InvalidHex)
            }),
    {
        let bs = hex.as_bytes();
        let ghost whole = bs@;
        let mut cleaned: Vec<u8> = Vec::new();
        let mut i: usize = 0;
        while i < bs.len()
            invariant
                i <= whole.len(),
                bs@ == whole,
                whole == hex.spec_bytes(),
                cleaned@ == clean_hex(whole.take(i as int)),
                all_hex_digits(cleaned@),
            decreases whole.len() - i,
        {
            let b = bs[i];
            proof {
                lemma_clean_hex_step(whole, i as int);
            }
            if b == 0x20 || b == 0x0a || b == 0x09 || b == 0x0d {
                // whitespace: dropped
            } else if (0x30 <= b && b <= 0x39) || (0x61 <= b && b <= 0x66) || (0x41 <= b && b
                <= 0x46) {
                cleaned.push(b);
            } else {
                proof {
                    lemma_clean_hex_prefix(whole, i as int + 1);
                    let pre = clean_hex(whole.take(i as int + 1));
                    assert(pre.len() >= 1 && pre.last() == b);
                    assert(clean_hex(whole)[pre.len() - 1] == b);
                    assert(!all_hex_digits(clean_hex(whole)));
                }
                return Err(SrpError::InvalidHex);
            }
            i += 1;
        }
        proof {
            assert(whole.take(whole.len() as int) =~= whole);
        }
        if cleaned.len() == 0 {
            return Err(SrpError::InvalidHex);
        }
        let width = cleaned.len();
        // Pair the digits into bytes, an implicit leading zero making the
        // count even.
        let mut padded: Vec<u8> = Vec::new();
        if width % 2 == 1 {
            padded.push(0x30);
        }
        let ghost lead = padded@;
        let mut j: usize = 0;
        while j < cleaned.len()
            invariant
                j <= cleaned@.len(),
                padded@ == lead + cleaned@.take(j as int),
                lead == if cleaned@.len() % 2 == 1 {
                    seq![0x30u8]
                } else {
                    Seq::<u8>::empty()
                },
            decreases cleaned@.len() - j,
        {
            padded.push(cleaned[j]);
            proof {
                assert(cleaned@.take(j as int + 1) =~= cleaned@.take(j as int).push(
                    cleaned@[j as int],
                ));
            }
            j += 1;
        }
        proof {
            assert(cleaned@.take(cleaned@.len() as int) =~= cleaned@);
            assert(all_hex_digits(padded@));
            assert(padded@.len() % 2 == 0);
            if cleaned@.len() % 2 == 1 {
                lemma_hex_value_leading_zero(padded@);
                assert(padded@.subrange(1, padded@.len() as int) =~= cleaned@);
            } else {
                assert(padded@ =~= cleaned@);
            }
            assert(hex_value(padded@) == hex_value(cleaned@));
        }
        let half = padded.len() / 2;
        let mut out: Vec<u8> = Vec::new();
        let mut k: usize = 0;
        while k < half
            invariant
                k <= half,
                half == padded@.len() / 2,
                2 * half <= usize::MAX,
                padded@.len() % 2 == 0,
                all_hex_digits(padded@),
                out@ == pair_bytes(padded@.take(2 * k as int)),
            decreases half - k,
        {
            let hi = hex_digit_value(padded[2 * k]);
            let lo = hex_digit_value(padded[2 * k + 1]);
            out.push(16 * hi + lo);
            proof {
                let t = padded@.take(2 * (k as int + 1));
                assert(t.drop_last().drop_last() =~= padded@.take(2 * k as int));
                assert(t[t.len() - 2] == padded@[2 * k as int]);
                assert(t[t.len() - 1] == padded@[2 * k as int + 1]);
            }
            k += 1;
        }
        proof {
            assert(padded@.take(2 * (half as int)) =~= padded@);
            lemma_pair_bytes_value(padded@);
            lemma_hex_value_bounds(cleaned@);
        }
        let value = bigint_from_bytes_be(out.as_slice());
        Ok(SrpInteger { value, hex_length: Some(width) })
    }

    /// Serialize to lowercase hex, left-padded with zeros to the recorded
    /// width (or to the value's own length if that is longer). Fails with
    /// `UnsizedHex` when no width was ever recorded.
    pub fn to_hex(&self) -> (r: Result<String, SrpError>)
        requires
            self.val() >= 0,
        ensures
            self.width() is None ==> r == Result::<String, SrpError>::Err(SrpError::UnsizedHex),
            self.width() matches Some(w) ==> r matches Ok(s) && s@ == chars_of(
                hex_digits_of(self.val(), max_nat(w as nat, hex_len_of(self.val()))),
            ),
    {
        let w = match self.hex_length {
            Some(w) => w,
            None => {
                return Err(SrpError::UnsizedHex);
            },
        };
        let ghost v = self.val();
        let mb = bigint_to_bytes_be(&self.value);
        let ghost bl = byte_len_of(v);
        let mut digits: Vec<u8> = Vec::new();
        let mut i: usize = 0;
        while i < mb.len()
            invariant
                i <= mb@.len(),
                mb@ == bytes_of(v, bl),
                bl == byte_len_of(v),
                digits@ == expand_hex(mb@.take(i as int)),
            decreases mb@.len() - i,
        {
            let b = mb[i];
            digits.push(byte_for_digit(b / 16));
            digits.push(byte_for_digit(b % 16));
            proof {
                let t = mb@.take(i as int + 1);
                assert(t.drop_last() =~= mb@.take(i as int));
                assert(t.last() == mb@[i as int]);
                assert(expand_hex(t) == expand_hex(mb@.take(i as int)) + seq![
                    crate::numrep::digit_byte(mb@[i as int] as int / 16),
                    crate::numrep::digit_byte(mb@[i as int] as int % 16),
                ]);
                assert(digits@ =~= expand_hex(t));
            }
            i += 1;
        }
        let ghost hl = hex_len_of(v);
        proof {
            assert(mb@.take(mb@.len() as int) =~= mb@);
            lemma_expand_hex_digits(mb@);
            crate::numrep::lemma_bytes_of_len(v, bl);
            assert(bl >= 1 && hl >= 1);
            lemma_byte_len_bound(v, bl);
            lemma_pow16_pow256(bl);
            lemma_value_of_bytes(v, bl);
            // digits are the canonical 2·bl wide encoding of v
            assert(hex_value(digits@) == v && digits@.len() == 2 * bl);
            lemma_hex_digits_of_value(digits@);
            assert(digits@ == hex_digits_of(v, 2 * bl));
            // the minimal length is 2·bl or one digit less
            lemma_hex_len_bound(v, 2 * bl);
            assert(hl <= 2 * bl);
            if bl >= 2 {
                lemma_byte_len_bound(v, (bl - 1) as nat);
                lemma_pow16_pow256((bl - 1) as nat);
                lemma_hex_len_bound(v, (2 * bl - 2) as nat);
                assert(hl >= 2 * bl - 1);
            }
        }
        // strip the single leading zero digit the byte expansion may carry
        let start: usize = if digits.len() > 1 && digits[0] == 0x30 {
            1
        } else {
            0
        };
        proof {
            lemma_hex_first_digit_zero(v, 2 * bl);
            lemma_hex_len_bound(v, (2 * bl - 1) as nat);
            if start == 1 {
                assert(hl == 2 * bl - 1);
                lemma_hex_len_bound(v, hl);
                lemma_hex_digits_of_widen(v, hl, 2 * bl);
                assert(digits@.subrange(1, digits@.len() as int) =~= hex_digits_of(v, hl));
            } else {
                assert(digits@[0] != 0x30u8);
                assert(hl == 2 * bl);
                assert(digits@.subrange(0, digits@.len() as int) =~= digits@);
            }
            assert(digits@.subrange(start as int, digits@.len() as int) == hex_digits_of(v, hl));
            assert(digits@.len() - start == hl);
        }
        let mlen = digits.len() - start;
        let total = if w > mlen {
            w
        } else {
            mlen
        };
        let ghost goal = hex_digits_of(v, max_nat(w as nat, hl));
        proof {
            if w > mlen {
                lemma_hex_len_bound(v, hl);
                lemma_hex_digits_of_widen(v, hl, w as nat);
            }
            crate::numrep::lemma_hex_digits_are_lower(v, max_nat(w as nat, hl));
        }
        let mut out: Vec<u8> = Vec::new();
        let mut p: usize = 0;
        while p < total - mlen
            invariant
                p <= total - mlen,
                mlen <= total,
                out@ == Seq::new(p as nat, |q: int| 0x30u8),
            decreases total - mlen - p,
        {
            out.push(0x30);
            proof {
                assert(out@ =~= Seq::new(p as nat + 1, |q: int| 0x30u8));
            }
            p += 1;
        }
        let mut q: usize = 0;
        while q < mlen
            invariant
                q <= mlen,
                start <= 1,
                mlen == digits@.len() - start,
                start + mlen == digits@.len(),
                out@ == Seq::new((total - mlen) as nat, |t: int| 0x30u8) + digits@.subrange(
                    start as int,
                    start as int + q as int,
                ),
            decreases mlen - q,
        {
            out.push(digits[start + q]);
            proof {
                assert(digits@.subrange(start as int, start as int + q as int + 1)
                    =~= digits@.subrange(start as int, start as int + q as int).push(
                    digits@[start as int + q as int],
                ));
                assert(out@ =~= Seq::new((total - mlen) as nat, |t: int| 0x30u8)
                    + digits@.subrange(start as int, start as int + q as int + 1));
            }
            q += 1;
        }
        proof {
            assert(digits@.subrange(start as int, digits@.len() as int) =~= hex_digits_of(v, hl));
            assert(out@ =~= goal);
            assert(forall|t: int| 0 <= t < out@.len() ==> out@[t] < 0x80) by {
                assert(all_lower_hex(goal));
            }
        }
        Ok(string_from_ascii(out))
    }

    /// The value serialized to exactly `n` big-endian bytes.
    fn to_padded_bytes(&self, n: usize) -> (r: Vec<u8>)
        requires
            0 <= self.val() < pow(256, n as nat),
            n >= 1,
        ensures
            r@ == bytes_of(self.val(), n as nat),
    {
        let ghost v = self.val();
        let mb = bigint_to_bytes_be(&self.value);
        proof {
            lemma_byte_len_bound(v, n as nat);
            crate::numrep::lemma_bytes_of_len(v, byte_len_of(v));
            assert(byte_len_of(v) >= 1);
            lemma_byte_len_bound(v, byte_len_of(v));
            lemma_bytes_of_widen(v, byte_len_of(v), n as nat);
        }
        let pad = n - mb.len();
        let mut out: Vec<u8> = Vec::new();
        let mut p: usize = 0;
        while p < pad
            invariant
                p <= pad,
                out@ == Seq::new(p as nat, |t: int| 0u8),
            decreases pad - p,
        {
            out.push(0);
            proof {
                assert(out@ =~= Seq::new(p as nat + 1, |t: int| 0u8));
            }
            p += 1;
        }
        let mut q: usize = 0;
        while q < mb.len()
            invariant
                q <= mb@.len(),
                out@ == Seq::new(pad as nat, |t: int| 0u8) + mb@.take(q as int),
            decreases mb@.len() - q,
        {
            out.push(mb[q]);
            proof {
                assert(mb@.take(q as int + 1) =~= mb@.take(q as int).push(mb@[q as int]));
                assert(out@ =~= Seq::new(pad as nat, |t: int| 0u8) + mb@.take(q as int + 1));
            }
            q += 1;
        }
        proof {
            assert(mb@.take(mb@.len() as int) =~= mb@);
            assert(out@ =~= bytes_of(v, n as nat));
        }
        out
    }

    /// The value in big endian, in exactly half the recorded width of
    /// bytes: the form in which every hash operand is consumed.
    pub fn serialized(&self) -> (r: Vec<u8>)
        requires
            self.hashable(),
        ensures
            r@ == bytes_of(self.val(), self.width_nat() / 2),
    {
        let w = match self.hex_length {
            Some(w) => w,
            None => vstd::pervasive::unreached(),
        };
        proof {
            assert(2 * ((w as nat) / 2) == w as nat);
            lemma_pow16_pow256((w as nat) / 2);
        }
        self.to_padded_bytes(w / 2)
    }

    /// Bitwise XOR of the two operands' byte serializations, the shorter
    /// zero-padded to the longer; the result keeps `self`'s width.
    pub fn xor(&self, other: &Self) -> (r: Self)
        requires
            self.hashable(),
            other.hashable(),
        ensures
            r.val() == xor_val(self.val(), self.width_nat(), other.val(), other.width_nat()),
            r.val() >= 0,
            r.width() == self.width(),
            self.width_nat() >= other.width_nat() ==> r.hashable(),
    {
        let wa = match self.hex_length {
            Some(w) => w,
            None => vstd::pervasive::unreached(),
        };
        let wb = match other.hex_length {
            Some(w) => w,
            None => vstd::pervasive::unreached(),
        };
        let maxw = if wa >= wb {
            wa
        } else {
            wb
        };
        let half = maxw / 2;
        proof {
            assert(maxw == max_nat(self.width_nat(), other.width_nat()));
            assert(2 * (half as nat) == maxw as nat);
            lemma_pow16_pow256(half as nat);
            if (wa as nat) < (maxw as nat) {
                vstd::arithmetic::power::lemma_pow_increases(16, wa as nat, maxw as nat);
            }
            if (wb as nat) < (maxw as nat) {
                vstd::arithmetic::power::lemma_pow_increases(16, wb as nat, maxw as nat);
            }
        }
        let sa = self.to_padded_bytes(half);
        let sb = other.to_padded_bytes(half);
        proof {
            crate::numrep::lemma_bytes_of_len(self.val(), half as nat);
            crate::numrep::lemma_bytes_of_len(other.val(), half as nat);
        }
        let mut out: Vec<u8> = Vec::new();
        let mut i: usize = 0;
        while i < half
            invariant
                i <= half,
                sa@.len() == half,
                sb@.len() == half,
                out@ == Seq::new(i as nat, |t: int| sa@[t] ^ sb@[t]),
            decreases half - i,
        {
            out.push(sa[i] ^ sb[i]);
            proof {
                assert(out@ =~= Seq::new(i as nat + 1, |t: int| sa@[t] ^ sb@[t]));
            }
            i += 1;
        }
        proof {
            assert(out@ =~= Seq::new(
                max_nat(self.width_nat(), other.width_nat()) / 2,
                |t: int|
                    bytes_of(self.val(), max_nat(self.width_nat(), other.width_nat()) / 2)[t]
                        ^ bytes_of(other.val(), max_nat(self.width_nat(), other.width_nat()) / 2)[
                        t
                    ],
            ));
            lemma_bytes_value_bounds(out@);
            if self.width_nat() >= other.width_nat() {
                lemma_pow16_pow256(half as nat);
            }
        }
        let value = bigint_from_bytes_be(out.as_slice());
        SrpInteger { value, hex_length: self.hex_length }
    }
}

} // verus!
