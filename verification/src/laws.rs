//! The algebraic laws the library guarantees, stated over the same spec
//! functions its executable contracts use: hex round trips, the shape of
//! serialized values, the exponentiation identities, the XOR involution,
//! and the mutual agreement of an honest handshake.

use crate::numrep::{
    all_hex_digits, all_lower_hex, bytes_of, bytes_value, chars_of, hex_digit_val,
    hex_digits_of, hex_len_of, hex_value, lemma_bytes_of_value, lemma_clean_hex_of_digits,
    lemma_hex_digits_are_lower, lemma_hex_digits_of_widen, lemma_hex_len_bound,
    lemma_pow16_pow256, lemma_value_of_bytes, lemma_value_of_hex_digits, max_nat,
};
use crate::params::{
    client_premaster_val, group_g_val, group_hxor_val, group_k_val, group_n_val, group_width,
    hex_num, hex_ok, hex_width_of, lemma_group_n_above_one, m1_val, m2_val, private_key_val,
    server_premaster_val, server_pub_val, session_key_val, u_val, verifier_val, SrpGroup,
};
use crate::srp_integer::xor_val;
use vstd::arithmetic::div_mod::{
    lemma_fundamental_div_mod, lemma_mod_division_less_than_divisor, lemma_mod_multiples_vanish,
    lemma_mul_mod_noop_general,
};
use vstd::arithmetic::power::{
    lemma_pow0, lemma_pow1, lemma_pow_adds, lemma_pow_mod_noop, lemma_pow_multiplies, pow,
};
use vstd::prelude::*;
use vstd::utf8::{encode_utf8, is_ascii_chars, is_ascii_chars_encode_utf8};

verus! {

/// Round trip: a value that fits a positive width serializes to the very
/// string `to_hex` promises, and that string parses back — through the
/// exact cleaning and reading `from_hex` promises — to the same value and
/// the same width.
pub proof fn lemma_hex_round_trip(v: int, w: nat)
    requires
        0 <= v < pow(16, w),
        w >= 1,
    ensures
        ({
            let c = chars_of(hex_digits_of(v, max_nat(w, hex_len_of(v))));
            &&& hex_ok(c)
            &&& hex_num(c) == v
            &&& hex_width_of(c) == w
        }),
{
    lemma_hex_len_bound(v, w);
    assert(max_nat(w, hex_len_of(v)) == w);
    let d = hex_digits_of(v, w);
    lemma_hex_digits_are_lower(v, w);
    let c = chars_of(d);
    assert(c.len() == w);
    assert(is_ascii_chars(c)) by {
        assert(forall|i: int| 0 <= i < w ==> #[trigger] c[i] == d[i] as char);
        assert(forall|i: int| 0 <= i < w ==> d[i] < 0x80);
    }
    is_ascii_chars_encode_utf8(c);
    assert(encode_utf8(c) =~= d) by {
        assert(forall|i: int| 0 <= i < w ==> #[trigger] encode_utf8(c)[i] == c[i] as u8);
        assert(forall|i: int| 0 <= i < w ==> (d[i] as char) as u8 == #[trigger] d[i]);
    }
    lemma_clean_hex_of_digits(d);
    lemma_value_of_hex_digits(v, w);
}

/// The shape of a serialized value that fits its width: exactly the width
/// in digits, all of them lowercase hex, with `'0'` filling every place
/// above the value's own length.
pub proof fn lemma_to_hex_shape(v: int, w: nat)
    requires
        0 <= v < pow(16, w),
        w >= 1,
    ensures
        ({
            let d = hex_digits_of(v, max_nat(w, hex_len_of(v)));
            &&& d.len() == w
            &&& all_lower_hex(d)
            &&& forall|i: int| 0 <= i < w - hex_len_of(v) ==> d[i] == 0x30u8
        }),
{
    lemma_hex_len_bound(v, w);
    assert(max_nat(w, hex_len_of(v)) == w);
    lemma_hex_digits_are_lower(v, w);
    let hl = hex_len_of(v);
    assert(hl >= 1);
    lemma_hex_len_bound(v, hl);
    lemma_hex_digits_of_widen(v, hl, w);
    assert(forall|i: int|
        0 <= i < w - hl ==> hex_digits_of(v, w)[i] == (Seq::new((w - hl) as nat, |t: int| 0x30u8)
            + hex_digits_of(v, hl))[i]);
}

/// The exponentiation identities behind `mod_pow`: exponent one reduces
/// the base, exponent zero yields one, for any modulus above one.
pub proof fn lemma_mod_pow_units(x: int, n: int)
    requires
        n > 1,
    ensures
        pow(x, 1) % n == x % n,
        pow(x, 0) % n == 1,
{
    lemma_pow1(x);
    lemma_pow0(x);
    vstd::arithmetic::div_mod::lemma_small_mod(1nat, n as nat);
}

/// XOR is an involution: combining with the same operand twice returns the
/// first operand, whenever the two widths match.
pub proof fn lemma_xor_involution(av: int, bv: int, w: nat)
    requires
        w % 2 == 0,
        w >= 2,
        0 <= av < pow(16, w),
        0 <= bv < pow(16, w),
    ensures
        xor_val(xor_val(av, w, bv, w), w, bv, w) == av,
{
    let half = w / 2;
    assert(max_nat(w, w) == w);
    let sa = bytes_of(av, half);
    let sb = bytes_of(bv, half);
    crate::numrep::lemma_bytes_of_len(av, half);
    crate::numrep::lemma_bytes_of_len(bv, half);
    let first = Seq::new(half, |i: int| sa[i] ^ sb[i]);
    let cv = bytes_value(first);
    assert(xor_val(av, w, bv, w) == cv);
    lemma_bytes_of_value(first);
    assert(bytes_of(cv, half) == first);
    let second = Seq::new(half, |i: int| bytes_of(cv, half)[i] ^ sb[i]);
    assert(second =~= sa) by {
        assert(forall|i: int| 0 <= i < half ==> #[trigger] second[i] == (sa[i] ^ sb[i]) ^ sb[i]);
        assert(forall|i: int| 0 <= i < half ==> ((sa[i] ^ sb[i]) ^ sb[i]) == #[trigger] sa[i])
            by {
            assert(forall|p: u8, q: u8| ((p ^ q) ^ q) == p) by (bit_vector);
        }
    }
    assert(xor_val(cv, w, bv, w) == bytes_value(sa));
    lemma_pow16_pow256(half);
    lemma_value_of_bytes(av, half);
}

/// The heart of mutual agreement: with an honest verifier
/// `v = g^x mod N`, an honest client public `A = g^a mod N` and an honest
/// server public `B = (k·v + g^b) mod N`, the client's premaster
/// `(B − k·g^x)^(a + u·x) mod N` equals the server's `(A·v^u)^b mod N`,
/// both being `g^(b·(a + u·x)) mod N`.
pub proof fn lemma_premaster_agreement(nv: int, g: int, k: int, x: int, a: int, b: int, u: int)
    requires
        nv > 0,
        x >= 0,
        a >= 0,
        b >= 0,
        u >= 0,
    ensures
        ({
            let vv = pow(g, x as nat) % nv;
            let av = pow(g, a as nat) % nv;
            let bv = server_pub_val(k, vv, g, b, nv);
            client_premaster_val(bv, k, g, x, a, u, nv) == server_premaster_val(av, vv, u, b, nv)
        }),
{
    let vv = pow(g, x as nat) % nv;
    let av = pow(g, a as nat) % nv;
    let gb = pow(g, b as nat) % nv;
    let t = k * vv + gb;
    let bv = t % nv;
    vstd::arithmetic::mul::lemma_mul_nonnegative(u, x);
    vstd::arithmetic::mul::lemma_mul_nonnegative(x, u);
    let e_c = (a + u * x) as nat;
    // the client's base is congruent to g^b
    lemma_fundamental_div_mod(t, nv);
    let q = t / nv;
    assert(bv - k * vv == gb + nv * (-q)) by (nonlinear_arith)
        requires
            t == nv * q + bv,
            t == k * vv + gb,
    ;
    lemma_mod_multiples_vanish(-q, gb, nv);
    assert((bv - k * vv) % nv == gb % nv);
    lemma_mod_division_less_than_divisor(pow(g, b as nat), nv);
    vstd::arithmetic::div_mod::lemma_small_mod(gb as nat, nv as nat);
    assert((bv - k * vv) % nv == gb);
    // so the client's power collapses to a power of g
    lemma_pow_mod_noop(bv - k * vv, e_c, nv);
    lemma_pow_mod_noop(pow(g, b as nat), e_c, nv);
    lemma_pow_multiplies(g, b as nat, e_c);
    assert(client_premaster_val(bv, k, g, x, a, u, nv) == pow(g, (b as nat) * e_c) % nv);
    // the server's side collapses to a power of g as well
    lemma_pow_mod_noop(pow(g, x as nat), u as nat, nv);
    lemma_pow_multiplies(g, x as nat, u as nat);
    assert(pow(vv, u as nat) % nv == pow(g, (x as nat) * (u as nat)) % nv);
    lemma_mul_mod_noop_general(pow(g, a as nat), pow(g, (x as nat) * (u as nat)), nv);
    lemma_pow_adds(g, a as nat, (x as nat) * (u as nat));
    assert((av * (pow(vv, u as nat) % nv)) % nv == pow(g, a as nat + (x as nat) * (u as nat))
        % nv) by {
        assert((av * (pow(vv, u as nat) % nv)) % nv == (av * (pow(g, (x as nat) * (u as nat))
            % nv)) % nv);
        lemma_mul_mod_noop_general(av, pow(g, (x as nat) * (u as nat)), nv);
        lemma_mul_mod_noop_general(pow(g, a as nat), pow(g, (x as nat) * (u as nat)), nv);
        assert((av * pow(g, (x as nat) * (u as nat))) % nv == (pow(g, a as nat) * pow(
            g,
            (x as nat) * (u as nat),
        )) % nv);
    }
    let e_s = a as nat + (x as nat) * (u as nat);
    lemma_pow_mod_noop(pow(g, e_s), b as nat, nv);
    lemma_pow_multiplies(g, e_s, b as nat);
    assert(server_premaster_val(av, vv, u, b, nv) == pow(g, e_s * (b as nat)) % nv);
    assert((b as nat) * e_c == e_s * (b as nat)) by (nonlinear_arith)
        requires
            e_c == a + u * x,
            e_s == a + x * u,
            a >= 0,
            b >= 0,
            u >= 0,
            x >= 0,
    ;
}

/// Mutual agreement for a whole honest handshake: both sides compute the
/// same session key, the server's recomputation of the client proof
/// matches it, and the client's recomputation of the server proof matches
/// it. The hypotheses are exactly an honest run: the verifier, the
/// ephemerals and the scrambling parameter are derived as the protocol
/// prescribes, and the exchanged strings parse back to the values sent,
/// which `lemma_hex_round_trip` guarantees of every serialized value.
pub proof fn lemma_handshake_agreement(
    grp: SrpGroup,
    x: int,
    a: int,
    b: int,
    sv: int,
    sw: nat,
    ih: int,
)
    requires
        x >= 0,
        a >= 0,
        b >= 0,
    ensures
        ({
            let nv = group_n_val(grp);
            let nw = group_width(grp);
            let gv = group_g_val(grp);
            let kv = group_k_val(grp);
            let vv = verifier_val(x, gv, nv);
            let av = pow(gv, a as nat) % nv;
            let bv = server_pub_val(kv, vv, gv, b, nv);
            let uv = u_val(av, nw, bv, nw);
            let s_client = client_premaster_val(bv, kv, gv, x, a, uv, nv);
            let s_server = server_premaster_val(av, vv, uv, b, nv);
            let k_client = session_key_val(s_client, nw);
            let k_server = session_key_val(s_server, nw);
            let m1_client = m1_val(group_hxor_val(grp), ih, sv, sw, av, nw, bv, nw, k_client);
            let m1_server = m1_val(group_hxor_val(grp), ih, sv, sw, av, nw, bv, nw, k_server);
            &&& s_client == s_server
            &&& k_client == k_server
            &&& m1_server == m1_client
            &&& m2_val(av, nw, m1_client, 64, k_server) == m2_val(
                av,
                nw,
                m1_client,
                64,
                k_client,
            )
        }),
{
    lemma_group_n_above_one(grp);
    let nv = group_n_val(grp);
    let gv = group_g_val(grp);
    let kv = group_k_val(grp);
    let nw = group_width(grp);
    let vv = verifier_val(x, gv, nv);
    let av = pow(gv, a as nat) % nv;
    let bv = server_pub_val(kv, vv, gv, b, nv);
    let uv = u_val(av, nw, bv, nw);
    assert(uv >= 0) by {
        crate::numrep::lemma_bytes_value_bounds(
            crate::params::sha256_of(
                crate::params::ser_all(seq![(av, nw), (bv, nw)]),
            ),
        );
    }
    lemma_premaster_agreement(nv, gv, kv, x, a, b, uv);
}

/// Feeding `derive_private_key`'s output into `derive_verifier` always
/// yields `g^H(s, H(I ":" p)) mod N`: the serialized private key parses
/// back to the very hash value, so recomputing the verifier from the same
/// salt and credentials reproduces it exactly.
pub proof fn lemma_verifier_recompute(sv: int, sw: nat, id: Seq<char>, pw: Seq<char>)
    requires
        0 <= private_key_val(sv, sw, id, pw) < pow(16, 64),
    ensures
        ({
            let xv = private_key_val(sv, sw, id, pw);
            let c = chars_of(hex_digits_of(xv, max_nat(64, hex_len_of(xv))));
            &&& hex_ok(c)
            &&& hex_num(c) == xv
            &&& hex_width_of(c) == 64
        }),
{
    lemma_hex_round_trip(private_key_val(sv, sw, id, pw), 64);
}

/// What `verify_session` accepts is pinned to one value: a server proof
/// whose digits denote any other integer is rejected. Two equal-length
/// digit strings that disagree in some digit's value denote different
/// integers.
pub proof fn lemma_hex_value_injective(s1: Seq<u8>, s2: Seq<u8>)
    requires
        all_hex_digits(s1),
        all_hex_digits(s2),
        s1.len() == s2.len(),
        exists|i: int|
            0 <= i < s1.len() && hex_digit_val(s1[i]) != hex_digit_val(#[trigger] s2[i]),
    ensures
        hex_value(s1) != hex_value(s2),
    decreases s1.len(),
{
    let i = choose|i: int|
        0 <= i < s1.len() && hex_digit_val(s1[i]) != hex_digit_val(#[trigger] s2[i]);
    if i == s1.len() - 1 {
        let d1 = hex_digit_val(s1.last());
        let d2 = hex_digit_val(s2.last());
        assert(hex_value(s1) % 16 == d1) by {
            lemma_mod_multiples_vanish(hex_value(s1.drop_last()), d1, 16);
            vstd::arithmetic::div_mod::lemma_small_mod(d1 as nat, 16nat);
            assert(hex_value(s1) == 16 * hex_value(s1.drop_last()) + d1) by (nonlinear_arith)
                requires
                    hex_value(s1) == hex_value(s1.drop_last()) * 16 + d1,
            ;
        }
        assert(hex_value(s2) % 16 == d2) by {
            lemma_mod_multiples_vanish(hex_value(s2.drop_last()), d2, 16);
            vstd::arithmetic::div_mod::lemma_small_mod(d2 as nat, 16nat);
            assert(hex_value(s2) == 16 * hex_value(s2.drop_last()) + d2) by (nonlinear_arith)
                requires
                    hex_value(s2) == hex_value(s2.drop_last()) * 16 + d2,
            ;
        }
    } else {
        assert(all_hex_digits(s1.drop_last()) && all_hex_digits(s2.drop_last())) by {
            assert(forall|j: int|
                0 <= j < s1.len() - 1 ==> s1.drop_last()[j] == #[trigger] s1[j]);
            assert(forall|j: int|
                0 <= j < s2.len() - 1 ==> s2.drop_last()[j] == #[trigger] s2[j]);
        }
        assert(s1.drop_last()[i] == s1[i] && s2.drop_last()[i] == s2[i]);
        lemma_hex_value_injective(s1.drop_last(), s2.drop_last());
        if hex_digit_val(s1.last()) == hex_digit_val(s2.last()) {
            assert(hex_value(s1) != hex_value(s2)) by (nonlinear_arith)
                requires
                    hex_value(s1) == hex_value(s1.drop_last()) * 16 + hex_digit_val(s1.last()),
                    hex_value(s2) == hex_value(s2.drop_last()) * 16 + hex_digit_val(s2.last()),
                    hex_value(s1.drop_last()) != hex_value(s2.drop_last()),
                    hex_digit_val(s1.last()) == hex_digit_val(s2.last()),
            ;
        } else {
            let d1 = hex_digit_val(s1.last());
            let d2 = hex_digit_val(s2.last());
            assert(0 <= d1 < 16 && 0 <= d2 < 16);
            assert(hex_value(s1) % 16 == d1 && hex_value(s2) % 16 == d2) by {
                lemma_mod_multiples_vanish(hex_value(s1.drop_last()), d1, 16);
                lemma_mod_multiples_vanish(hex_value(s2.drop_last()), d2, 16);
                vstd::arithmetic::div_mod::lemma_small_mod(d1 as nat, 16nat);
                vstd::arithmetic::div_mod::lemma_small_mod(d2 as nat, 16nat);
                assert(hex_value(s1) == 16 * hex_value(s1.drop_last()) + d1
                    && hex_value(s2) == 16 * hex_value(s2.drop_last()) + d2)
                    by (nonlinear_arith)
                    requires
                        hex_value(s1) == hex_value(s1.drop_last()) * 16 + d1,
                        hex_value(s2) == hex_value(s2.drop_last()) * 16 + d2,
                ;
            }
        }
    }
}

} // verus!
