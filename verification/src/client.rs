//! The client side of the handshake: salt generation, private key and
//! verifier derivation, ephemeral generation, session derivation and
//! verification of the server's proof.

use crate::numrep::{
    all_hex_digits, chars_of, hex_digits_of, hex_len_of, hex_value, is_hex_digit,
    lemma_hex_len_bound, lemma_pair_bytes_value, max_nat, pair_bytes,
};
use crate::params::{
    get_group_params, get_h_N_xor_h_g, group_g_val, group_hxor_val, group_k_val, group_n_val,
    group_width, hash_utf8, hash_ints, hex_num, hex_ok, hex_width_of, client_premaster_val,
    m1_val, private_key_val, session_key_val, u_val, verifier_val, SrpGroup, H, H_str,
    HASH_OUTPUT_BYTES,
};
use crate::srp_integer::SrpInteger;
use crate::SrpError;
use vstd::arithmetic::power::pow;
use vstd::prelude::*;
use vstd::string::StringSliceAdditionalSpecFns;
use vstd::string::StringExecFns;

verus! {

/// Generate a random salt: 32 bytes from the CSPRNG, as 64 hex digits.
pub fn generate_salt() -> (r: String)
    ensures
        r@.len() == 64,
        exists|sv: int|
            0 <= sv < pow(16, 64) && r@ == chars_of(#[trigger] hex_digits_of(sv, 64)),
{
    let s = SrpInteger::random_integer(HASH_OUTPUT_BYTES);
    let hex = match s.to_hex() {
        Ok(h) => h,
        Err(_) => vstd::pervasive::unreached(),
    };
    proof {
        lemma_hex_len_bound(s.val(), 64);
        assert(max_nat(64, hex_len_of(s.val())) == 64);
        crate::numrep::lemma_hex_digits_are_lower(s.val(), 64);
        assert(hex@ == chars_of(hex_digits_of(s.val(), 64)));
    }
    hex
}

/// Derive the private key `x = H(s, H(I ":" p))` from the salt and the
/// user's credentials.
pub fn derive_private_key(salt: String, username: String, password: String) -> (r: Result<
    String,
    SrpError,
>)
    requires
        hex_ok(salt@) ==> hex_width_of(salt@) % 2 == 0,
    ensures
        r is Ok <==> hex_ok(salt@),
        r matches Err(e) ==> e == SrpError::InvalidHex,
        r matches Ok(x) ==> x@ == chars_of(
            hex_digits_of(
                private_key_val(hex_num(salt@), hex_width_of(salt@), username@, password@),
                64,
            ),
        ),
{
    let s = match SrpInteger::from_hex(salt.as_str()) {
        Ok(v) => v,
        Err(e) => {
            return Err(e);
        },
    };
    let mut joined = username;
    joined.append(":");
    joined.append(password.as_str());
    let h_i_p = H_str(joined.as_str());
    let x_args = [&s, &h_i_p];
    let x = H(x_args.as_slice());
    proof {
        assert(x_args@ =~= seq![&s, &h_i_p]);
        let m = x_args@.map_values(|t: &SrpInteger| (t.val(), t.width_nat()));
        assert(m =~= seq![
            (hex_num(salt@), hex_width_of(salt@)),
            (hash_utf8(vstd::utf8::encode_utf8(joined@)), 64nat),
        ]);
        assert(x.val() == private_key_val(hex_num(salt@), hex_width_of(salt@), username@,
        password@));
        lemma_hex_len_bound(x.val(), 64);
        assert(max_nat(64, hex_len_of(x.val())) == 64);
    }
    let hex = match x.to_hex() {
        Ok(h) => h,
        Err(_) => vstd::pervasive::unreached(),
    };
    Ok(hex)
}

/// The client's ephemeral key pair: `secret` is `a`, `public` is
/// `A = g^a mod N`.
#[derive(Debug)]
pub struct ClientEphemeral {
    pub secret: String,
    pub public: String,
}

/// The client's derived session: the shared key `K` and the proof `M1`.
#[derive(Debug)]
pub struct ClientSession {
    pub key: String,
    pub proof: String,
}

/// The client side of the protocol, bound to one parameter group.
#[derive(Debug)]
pub struct Client {
    group: SrpGroup,
}

impl Client {
    /// The group this client was created with.
    pub closed spec fn spec_group(&self) -> SrpGroup {
        self.group
    }

    /// A client for the given group, or for the 2048-bit default.
    pub fn new(group: Option<SrpGroup>) -> (r: Self)
        ensures
            r.spec_group() == (match group {
                Some(g) => g,
                None => SrpGroup::Rfc5054Group2048,
            }),
    {
        Client {
            group: match group {
                Some(g) => g,
                None => SrpGroup::Rfc5054Group2048,
            },
        }
    }

    /// Generate a random salt; the group plays no part.
    pub fn generate_salt(&self) -> (r: String)
        ensures
            r@.len() == 64,
            exists|sv: int|
                0 <= sv < pow(16, 64) && r@ == chars_of(#[trigger] hex_digits_of(sv, 64)),
    {
        generate_salt()
    }

    /// Derive the private key; the group plays no part.
    pub fn derive_private_key(&self, salt: String, username: String, password: String) -> (r:
        Result<String, SrpError>)
        requires
            hex_ok(salt@) ==> hex_width_of(salt@) % 2 == 0,
        ensures
            r is Ok <==> hex_ok(salt@),
            r matches Err(e) ==> e == SrpError::InvalidHex,
            r matches Ok(x) ==> x@ == chars_of(
                hex_digits_of(
                    private_key_val(hex_num(salt@), hex_width_of(salt@), username@, password@),
                    64,
                ),
            ),
    {
        derive_private_key(salt, username, password)
    }

    /// Derive the password verifier `v = g^x mod N` from the private key.
    pub fn derive_verifier(&self, private_key: String) -> (r: Result<String, SrpError>)
        ensures
            r is Ok <==> hex_ok(private_key@),
            r matches Err(e) ==> e == SrpError::InvalidHex,
            r matches Ok(v) ==> v@ == chars_of(
                hex_digits_of(
                    verifier_val(
                        hex_num(private_key@),
                        group_g_val(self.spec_group()),
                        group_n_val(self.spec_group()),
                    ),
                    group_width(self.spec_group()),
                ),
            ),
    {
        let (n, g, _) = get_group_params(self.group);
        let x = match SrpInteger::from_hex(private_key.as_str()) {
            Ok(v) => v,
            Err(e) => {
                return Err(e);
            },
        };
        let v = g.mod_pow(&x, &n);
        proof {
            lemma_hex_len_bound(v.val(), group_width(self.spec_group()));
            assert(max_nat(group_width(self.spec_group()), hex_len_of(v.val())) == group_width(
                self.spec_group(),
            ));
        }
        let hex = match v.to_hex() {
            Ok(h) => h,
            Err(_) => vstd::pervasive::unreached(),
        };
        Ok(hex)
    }

    /// Generate the client's ephemeral pair: a random 32-byte secret `a`
    /// and the public value `A = g^a mod N` at the group width.
    pub fn generate_ephemeral(&self) -> (r: ClientEphemeral)
        ensures
            r.secret@.len() == 64,
            r.public@.len() == group_width(self.spec_group()),
            exists|av: int|
                0 <= av < pow(16, 64) && r.secret@ == chars_of(#[trigger] hex_digits_of(av, 64))
                    && r.public@ == chars_of(
                    hex_digits_of(
                        pow(group_g_val(self.spec_group()), av as nat) % group_n_val(
                            self.spec_group(),
                        ),
                        group_width(self.spec_group()),
                    ),
                ),
    {
        let (n, g, _) = get_group_params(self.group);
        let a = SrpInteger::random_integer(HASH_OUTPUT_BYTES);
        let a_pub = g.mod_pow(&a, &n);
        proof {
            lemma_hex_len_bound(a.val(), 64);
            assert(max_nat(64, hex_len_of(a.val())) == 64);
            lemma_hex_len_bound(a_pub.val(), group_width(self.spec_group()));
            assert(max_nat(group_width(self.spec_group()), hex_len_of(a_pub.val()))
                == group_width(self.spec_group()));
            crate::numrep::lemma_hex_digits_are_lower(a.val(), 64);
            crate::numrep::lemma_hex_digits_are_lower(
                a_pub.val(),
                group_width(self.spec_group()),
            );
        }
        let secret = match a.to_hex() {
            Ok(h) => h,
            Err(_) => vstd::pervasive::unreached(),
        };
        let public = match a_pub.to_hex() {
            Ok(h) => h,
            Err(_) => vstd::pervasive::unreached(),
        };
        proof {
            assert(0 <= a.val() < pow(16, 64) && secret@ == chars_of(hex_digits_of(a.val(), 64))
                && public@ == chars_of(
                hex_digits_of(
                    pow(group_g_val(self.spec_group()), a.val() as nat) % group_n_val(
                        self.spec_group(),
                    ),
                    group_width(self.spec_group()),
                ),
            ));
        }
        ClientEphemeral { secret, public }
    }

    /// Derive the session key and the client proof.
    ///
    /// Errors are reported in the order the checks run: first any hex
    /// failure in `a` and the optional `A`, then in `B`, then the ephemeral
    /// safeguard `B mod N != 0`, then any hex failure in the salt or the
    /// private key. Widths that reach the hash must be even (whole bytes).
    pub fn derive_session(
        &self,
        client_secret_ephemeral: String,
        server_public_ephemeral: String,
        salt: String,
        username: String,
        private_key: String,
        client_public_ephemeral: Option<String>,
    ) -> (r: Result<ClientSession, SrpError>)
        requires
            hex_ok(server_public_ephemeral@) ==> hex_width_of(server_public_ephemeral@) % 2 == 0,
            hex_ok(salt@) ==> hex_width_of(salt@) % 2 == 0,
            (match client_public_ephemeral {
                Some(ap) => hex_ok(ap@) ==> hex_width_of(ap@) % 2 == 0,
                None => true,
            }),
        ensures
            ({
                let grp = self.spec_group();
                let nv = group_n_val(grp);
                let nw = group_width(grp);
                let gv = group_g_val(grp);
                let kv = group_k_val(grp);
                let ok_a = hex_ok(client_secret_ephemeral@);
                let ok_b = hex_ok(server_public_ephemeral@);
                let ok_s = hex_ok(salt@);
                let ok_x = hex_ok(private_key@);
                let ok_ap = match client_public_ephemeral {
                    Some(ap) => hex_ok(ap@),
                    None => true,
                };
                let av = hex_num(client_secret_ephemeral@);
                let bv = hex_num(server_public_ephemeral@);
                let bw = hex_width_of(server_public_ephemeral@);
                let sv = hex_num(salt@);
                let sw = hex_width_of(salt@);
                let xv = hex_num(private_key@);
                let pubv = match client_public_ephemeral {
                    Some(ap) => hex_num(ap@),
                    None => pow(gv, av as nat) % nv,
                };
                let pubw = match client_public_ephemeral {
                    Some(ap) => hex_width_of(ap@),
                    None => nw,
                };
                let uv = u_val(pubv, pubw, bv, bw);
                let s_val = client_premaster_val(bv, kv, gv, xv, av, uv, nv);
                let k_val = session_key_val(s_val, nw);
                let m1 = m1_val(
                    group_hxor_val(grp),
                    hash_utf8(vstd::utf8::encode_utf8(username@)),
                    sv,
                    sw,
                    pubv,
                    pubw,
                    bv,
                    bw,
                    k_val,
                );
                &&& (!ok_a ==> r == Err::<ClientSession, SrpError>(SrpError::InvalidHex))
                &&& (ok_a && !ok_ap ==> r == Err::<ClientSession, SrpError>(SrpError::InvalidHex))
                &&& (ok_a && ok_ap && !ok_b ==> r == Err::<ClientSession, SrpError>(
                    SrpError::InvalidHex,
                ))
                &&& (ok_a && ok_ap && ok_b && bv % nv == 0 ==> r == Err::<
                    ClientSession,
                    SrpError,
                >(SrpError::InvalidPeerEphemeral))
                &&& (ok_a && ok_ap && ok_b && bv % nv != 0 && !(ok_s && ok_x) ==> r == Err::<
                    ClientSession,
                    SrpError,
                >(SrpError::InvalidHex))
                &&& (ok_a && ok_ap && ok_b && bv % nv != 0 && ok_s && ok_x ==> (r matches Ok(
                    sess,
                ) && sess.key@ == chars_of(hex_digits_of(k_val, 64)) && sess.proof@ == chars_of(
                    hex_digits_of(m1, 64),
                )))
            }),
    {
        let (n, g, k) = get_group_params(self.group);
        let a = match SrpInteger::from_hex(client_secret_ephemeral.as_str()) {
            Ok(v) => v,
            Err(e) => {
                return Err(e);
            },
        };
        let a_pub = match &client_public_ephemeral {
            Some(ap_str) => {
                match SrpInteger::from_hex(ap_str.as_str()) {
                    Ok(v) => v,
                    Err(e) => {
                        return Err(e);
                    },
                }
            },
            None => g.mod_pow(&a, &n),
        };
        let b_pub = match SrpInteger::from_hex(server_public_ephemeral.as_str()) {
            Ok(v) => v,
            Err(e) => {
                return Err(e);
            },
        };
        if b_pub.is_zero() || b_pub.modulo(&n).is_zero() {
            proof {
                if b_pub.val() == 0 {
                    vstd::arithmetic::div_mod::lemma_small_mod(0nat, n.val() as nat);
                }
            }
            return Err(SrpError::InvalidPeerEphemeral);
        }
        let u_args = [&a_pub, &b_pub];
        let u = H(u_args.as_slice());
        proof {
            assert(u_args@ =~= seq![&a_pub, &b_pub]);
            let m = u_args@.map_values(|t: &SrpInteger| (t.val(), t.width_nat()));
            assert(m =~= seq![
                (a_pub.val(), a_pub.width_nat()),
                (b_pub.val(), b_pub.width_nat()),
            ]);
        }
        let s = match SrpInteger::from_hex(salt.as_str()) {
            Ok(v) => v,
            Err(e) => {
                return Err(e);
            },
        };
        let x = match SrpInteger::from_hex(private_key.as_str()) {
            Ok(v) => v,
            Err(e) => {
                return Err(e);
            },
        };
        let s_premaster = b_pub.subtract_mult_pow(&k, &g, &x, &a, &u, &n);
        let k_args = [&s_premaster];
        let k_session = H(k_args.as_slice());
        proof {
            assert(k_args@ =~= seq![&s_premaster]);
            let m = k_args@.map_values(|t: &SrpInteger| (t.val(), t.width_nat()));
            assert(m =~= seq![(s_premaster.val(), s_premaster.width_nat())]);
        }
        let i_hash = H_str(username.as_str());
        let n_g_xor = get_h_N_xor_h_g(self.group);
        let m1_args = [&n_g_xor, &i_hash, &s, &a_pub, &b_pub, &k_session];
        let m1 = H(m1_args.as_slice());
        proof {
            assert(m1_args@ =~= seq![&n_g_xor, &i_hash, &s, &a_pub, &b_pub, &k_session]);
            let m = m1_args@.map_values(|t: &SrpInteger| (t.val(), t.width_nat()));
            assert(m =~= seq![
                (n_g_xor.val(), 64nat),
                (i_hash.val(), 64nat),
                (s.val(), s.width_nat()),
                (a_pub.val(), a_pub.width_nat()),
                (b_pub.val(), b_pub.width_nat()),
                (k_session.val(), 64nat),
            ]);
            lemma_hex_len_bound(k_session.val(), 64);
            assert(max_nat(64, hex_len_of(k_session.val())) == 64);
            lemma_hex_len_bound(m1.val(), 64);
            assert(max_nat(64, hex_len_of(m1.val())) == 64);
        }
        let key = match k_session.to_hex() {
            Ok(h) => h,
            Err(_) => vstd::pervasive::unreached(),
        };
        let proof_hex = match m1.to_hex() {
            Ok(h) => h,
            Err(_) => vstd::pervasive::unreached(),
        };
        Ok(ClientSession { key, proof: proof_hex })
    }

    /// Check the server's proof `M2 = H(A, M1, K)` against the session the
    /// client derived.
    pub fn verify_session(
        &self,
        client_public_ephemeral: String,
        client_session: ClientSession,
        server_session_proof: String,
    ) -> (r: Result<(), SrpError>)
        requires
            hex_ok(client_public_ephemeral@) ==> hex_width_of(client_public_ephemeral@) % 2 == 0,
            hex_ok(client_session.proof@) ==> hex_width_of(client_session.proof@) % 2 == 0,
        ensures
            ({
                let kb = vstd::utf8::encode_utf8(client_session.key@);
                let ok_a = hex_ok(client_public_ephemeral@);
                let ok_m1 = hex_ok(client_session.proof@);
                let ok_k = kb.len() % 2 == 0 && kb.len() > 0 && all_hex_digits(kb);
                let ok_m2 = hex_ok(server_session_proof@);
                let expected = hash_ints(
                    seq![
                        (hex_num(client_public_ephemeral@), hex_width_of(client_public_ephemeral@)),
                        (hex_num(client_session.proof@), hex_width_of(client_session.proof@)),
                        (hex_value(kb), kb.len()),
                    ],
                );
                &&& (!ok_a ==> r == Err::<(), SrpError>(SrpError::InvalidHex))
                &&& (ok_a && !ok_m1 ==> r == Err::<(), SrpError>(SrpError::InvalidHex))
                &&& (ok_a && ok_m1 && !ok_k ==> r == Err::<(), SrpError>(SrpError::InvalidHex))
                &&& (ok_a && ok_m1 && ok_k && !ok_m2 ==> r == Err::<(), SrpError>(
                    SrpError::InvalidHex,
                ))
                &&& (ok_a && ok_m1 && ok_k && ok_m2 ==> r == (if expected == hex_num(
                    server_session_proof@,
                ) {
                    Ok::<(), SrpError>(())
                } else {
                    Err::<(), SrpError>(SrpError::InvalidServerProof)
                }))
            }),
    {
        let a_pub = match SrpInteger::from_hex(client_public_ephemeral.as_str()) {
            Ok(v) => v,
            Err(e) => {
                return Err(e);
            },
        };
        let m1 = match SrpInteger::from_hex(client_session.proof.as_str()) {
            Ok(v) => v,
            Err(e) => {
                return Err(e);
            },
        };
        let key_bytes = match decode_hex(client_session.key.as_str()) {
            Ok(v) => v,
            Err(e) => {
                return Err(e);
            },
        };
        if key_bytes.len() == 0 {
            return Err(SrpError::InvalidHex);
        }
        let m2 = match SrpInteger::from_hex(server_session_proof.as_str()) {
            Ok(v) => v,
            Err(e) => {
                return Err(e);
            },
        };
        proof {
            lemma_pair_bytes_value(
                vstd::utf8::encode_utf8(client_session.key@),
            );
        }
        let k_srp = SrpInteger::from_bytes(key_bytes.as_slice());
        let m2_args = [&a_pub, &m1, &k_srp];
        let expected_m2 = H(m2_args.as_slice());
        proof {
            assert(m2_args@ =~= seq![&a_pub, &m1, &k_srp]);
            let m = m2_args@.map_values(|t: &SrpInteger| (t.val(), t.width_nat()));
            assert(m =~= seq![
                (a_pub.val(), a_pub.width_nat()),
                (m1.val(), m1.width_nat()),
                (k_srp.val(), k_srp.width_nat()),
            ]);
        }
        if !expected_m2.equals(&m2) {
            return Err(SrpError::InvalidServerProof);
        }
        Ok(())
    }
}

/// Decode a plain hex string (no whitespace tolerated) into bytes, two
/// digits a byte.
fn decode_hex(s: &str) -> (r: Result<Vec<u8>, SrpError>)
    ensures
        r is Ok <==> s.spec_bytes().len() % 2 == 0 && all_hex_digits(s.spec_bytes()),
        r matches Ok(v) ==> v@ == pair_bytes(s.spec_bytes()) && v@.len() == s.spec_bytes().len()
            / 2 && v@.len() * 2 <= usize::MAX,
        r matches Err(e) ==> e == SrpError::InvalidHex,
{
    let bs = s.as_bytes();
    if bs.len() % 2 != 0 {
        return Err(SrpError::InvalidHex);
    }
    let half = bs.len() / 2;
    let mut out: Vec<u8> = Vec::new();
    let mut i: usize = 0;
    while i < half
        invariant
            i <= half,
            half == bs@.len() / 2,
            bs@.len() % 2 == 0,
            2 * half <= usize::MAX,
            bs@ == s.spec_bytes(),
            out@ == pair_bytes(bs@.take(2 * i as int)),
            forall|j: int| 0 <= j < 2 * i ==> is_hex_digit(#[trigger] bs@[j]),
        decreases half - i,
    {
        let hi = bs[2 * i];
        let lo = bs[2 * i + 1];
        let hi_ok = (0x30 <= hi && hi <= 0x39) || (0x61 <= hi && hi <= 0x66) || (0x41 <= hi && hi
            <= 0x46);
        let lo_ok = (0x30 <= lo && lo <= 0x39) || (0x61 <= lo && lo <= 0x66) || (0x41 <= lo && lo
            <= 0x46);
        if !hi_ok || !lo_ok {
            return Err(SrpError::InvalidHex);
        }
        out.push(
            16 * crate::srp_integer::hex_digit_value(hi) + crate::srp_integer::hex_digit_value(lo),
        );
        proof {
            let t = bs@.take(2 * (i as int + 1));
            assert(t.drop_last().drop_last() =~= bs@.take(2 * i as int));
            assert(t[t.len() - 2] == bs@[2 * i as int]);
            assert(t[t.len() - 1] == bs@[2 * i as int + 1]);
        }
        i += 1;
    }
    proof {
        assert(bs@.take(2 * (half as int)) =~= bs@);
        assert(all_hex_digits(bs@));
        lemma_pair_bytes_value(bs@);
    }
    Ok(out)
}

/// Derive the password verifier with the default 2048-bit group.
pub fn derive_verifier(private_key: String) -> (r: Result<String, SrpError>)
    ensures
        r is Ok <==> hex_ok(private_key@),
        r matches Err(e) ==> e == SrpError::InvalidHex,
        r matches Ok(v) ==> v@ == chars_of(
            hex_digits_of(
                verifier_val(
                    hex_num(private_key@),
                    group_g_val(SrpGroup::Rfc5054Group2048),
                    group_n_val(SrpGroup::Rfc5054Group2048),
                ),
                group_width(SrpGroup::Rfc5054Group2048),
            ),
        ),
{
    Client::new(None).derive_verifier(private_key)
}

/// Generate a client ephemeral pair with the default 2048-bit group.
pub fn generate_ephemeral() -> (r: ClientEphemeral)
    ensures
        r.secret@.len() == 64,
        r.public@.len() == group_width(SrpGroup::Rfc5054Group2048),
        exists|av: int|
            0 <= av < pow(16, 64) && r.secret@ == chars_of(#[trigger] hex_digits_of(av, 64))
                && r.public@ == chars_of(
                hex_digits_of(
                    pow(group_g_val(SrpGroup::Rfc5054Group2048), av as nat) % group_n_val(
                        SrpGroup::Rfc5054Group2048,
                    ),
                    group_width(SrpGroup::Rfc5054Group2048),
                ),
            ),
{
    Client::new(None).generate_ephemeral()
}

/// Derive the client session with the default 2048-bit group.
pub fn derive_session(
    client_secret_ephemeral: String,
    server_public_ephemeral: String,
    salt: String,
    username: String,
    private_key: String,
    client_public_ephemeral: Option<String>,
) -> (r: Result<ClientSession, SrpError>)
    requires
        hex_ok(server_public_ephemeral@) ==> hex_width_of(server_public_ephemeral@) % 2 == 0,
        hex_ok(salt@) ==> hex_width_of(salt@) % 2 == 0,
        (match client_public_ephemeral {
            Some(ap) => hex_ok(ap@) ==> hex_width_of(ap@) % 2 == 0,
            None => true,
        }),
    ensures
        ({
            let grp = SrpGroup::Rfc5054Group2048;
            let nv = group_n_val(grp);
            let nw = group_width(grp);
            let gv = group_g_val(grp);
            let kv = group_k_val(grp);
            let ok_a = hex_ok(client_secret_ephemeral@);
            let ok_b = hex_ok(server_public_ephemeral@);
            let ok_s = hex_ok(salt@);
            let ok_x = hex_ok(private_key@);
            let ok_ap = match client_public_ephemeral {
                Some(ap) => hex_ok(ap@),
                None => true,
            };
            let av = hex_num(client_secret_ephemeral@);
            let bv = hex_num(server_public_ephemeral@);
            let bw = hex_width_of(server_public_ephemeral@);
            let sv = hex_num(salt@);
            let sw = hex_width_of(salt@);
            let xv = hex_num(private_key@);
            let pubv = match client_public_ephemeral {
                Some(ap) => hex_num(ap@),
                None => pow(gv, av as nat) % nv,
            };
            let pubw = match client_public_ephemeral {
                Some(ap) => hex_width_of(ap@),
                None => nw,
            };
            let uv = u_val(pubv, pubw, bv, bw);
            let s_val = client_premaster_val(bv, kv, gv, xv, av, uv, nv);
            let k_val = session_key_val(s_val, nw);
            let m1 = m1_val(
                group_hxor_val(grp),
                hash_utf8(vstd::utf8::encode_utf8(username@)),
                sv,
                sw,
                pubv,
                pubw,
                bv,
                bw,
                k_val,
            );
            &&& (!ok_a ==> r == Err::<ClientSession, SrpError>(SrpError::InvalidHex))
            &&& (ok_a && !ok_ap ==> r == Err::<ClientSession, SrpError>(SrpError::InvalidHex))
            &&& (ok_a && ok_ap && !ok_b ==> r == Err::<ClientSession, SrpError>(
                SrpError::InvalidHex,
            ))
            &&& (ok_a && ok_ap && ok_b && bv % nv == 0 ==> r == Err::<ClientSession, SrpError>(
                SrpError::InvalidPeerEphemeral,
            ))
            &&& (ok_a && ok_ap && ok_b && bv % nv != 0 && !(ok_s && ok_x) ==> r == Err::<
                ClientSession,
                SrpError,
            >(SrpError::InvalidHex))
            &&& (ok_a && ok_ap && ok_b && bv % nv != 0 && ok_s && ok_x ==> (r matches Ok(sess)
                && sess.key@ == chars_of(hex_digits_of(k_val, 64)) && sess.proof@ == chars_of(
                hex_digits_of(m1, 64),
            )))
        }),
{
    Client::new(None).derive_session(
        client_secret_ephemeral,
        server_public_ephemeral,
        salt,
        username,
        private_key,
        client_public_ephemeral,
    )
}

/// Check the server proof with the default 2048-bit group; the group does
/// not enter this computation.
pub fn verify_session(
    client_public_ephemeral: String,
    client_session: ClientSession,
    server_session_proof: String,
) -> (r: Result<(), SrpError>)
    requires
        hex_ok(client_public_ephemeral@) ==> hex_width_of(client_public_ephemeral@) % 2 == 0,
        hex_ok(client_session.proof@) ==> hex_width_of(client_session.proof@) % 2 == 0,
    ensures
        ({
            let kb = vstd::utf8::encode_utf8(client_session.key@);
            let ok_a = hex_ok(client_public_ephemeral@);
            let ok_m1 = hex_ok(client_session.proof@);
            let ok_k = kb.len() % 2 == 0 && kb.len() > 0 && all_hex_digits(kb);
            let ok_m2 = hex_ok(server_session_proof@);
            let expected = hash_ints(
                seq![
                    (hex_num(client_public_ephemeral@), hex_width_of(client_public_ephemeral@)),
                    (hex_num(client_session.proof@), hex_width_of(client_session.proof@)),
                    (hex_value(kb), kb.len()),
                ],
            );
            &&& (!ok_a ==> r == Err::<(), SrpError>(SrpError::InvalidHex))
            &&& (ok_a && !ok_m1 ==> r == Err::<(), SrpError>(SrpError::InvalidHex))
            &&& (ok_a && ok_m1 && !ok_k ==> r == Err::<(), SrpError>(SrpError::InvalidHex))
            &&& (ok_a && ok_m1 && ok_k && !ok_m2 ==> r == Err::<(), SrpError>(
                SrpError::InvalidHex,
            ))
            &&& (ok_a && ok_m1 && ok_k && ok_m2 ==> r == (if expected == hex_num(
                server_session_proof@,
            ) {
                Ok::<(), SrpError>(())
            } else {
                Err::<(), SrpError>(SrpError::InvalidServerProof)
            }))
        }),
{
    Client::new(None).verify_session(
        client_public_ephemeral,
        client_session,
        server_session_proof,
    )
}

} // verus!
