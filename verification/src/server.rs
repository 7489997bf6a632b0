//! The server side of the handshake: ephemeral generation from a stored
//! verifier, and session derivation with the RFC 5054 safeguard and the
//! client-proof check.

use crate::numrep::{chars_of, hex_digits_of, hex_len_of, lemma_hex_len_bound, max_nat};
use crate::params::{
    get_group_params, get_h_N_xor_h_g, group_g_val, group_hxor_val, group_k_val, group_n_val,
    group_width, hash_utf8, hex_num, hex_ok, hex_width_of, m1_val, m2_val, server_premaster_val,
    server_pub_val, session_key_val, u_val, SrpGroup, H, H_str, HASH_OUTPUT_BYTES,
};
use crate::srp_integer::SrpInteger;
use crate::SrpError;
use vstd::arithmetic::power::pow;
use vstd::prelude::*;
use vstd::string::StringSliceAdditionalSpecFns;

verus! {

/// The server's ephemeral key pair: `secret` is `b`, `public` is
/// `B = (k·v + g^b) mod N`.
#[derive(Debug)]
pub struct ServerEphemeral {
    pub secret: String,
    pub public: String,
}

/// The server's derived session: the shared key `K` and the proof `M2`.
#[derive(Debug)]
pub struct ServerSession {
    pub key: String,
    pub proof: String,
}

/// The server side of the protocol, bound to one parameter group.
#[derive(Debug)]
pub struct Server {
    group: SrpGroup,
}

impl Server {
    /// The group this server was created with.
    pub closed spec fn spec_group(&self) -> SrpGroup {
        self.group
    }

    /// A server for the given group, or for the 2048-bit default.
    pub fn new(group: Option<SrpGroup>) -> (r: Self)
        ensures
            r.spec_group() == (match group {
                Some(g) => g,
                None => SrpGroup::Rfc5054Group2048,
            }),
    {
        Server {
            group: match group {
                Some(g) => g,
                None => SrpGroup::Rfc5054Group2048,
            },
        }
    }

    /// Generate the server's ephemeral pair from the stored verifier: a
    /// random 32-byte secret `b` and `B = (k·v + g^b) mod N` at the group
    /// width.
    pub fn generate_ephemeral(&self, verifier: String) -> (r: Result<ServerEphemeral, SrpError>)
        ensures
            r is Ok <==> hex_ok(verifier@),
            r matches Err(e) ==> e == SrpError::InvalidHex,
            r matches Ok(eph) ==> eph.secret@.len() == 64 && eph.public@.len() == group_width(
                self.spec_group(),
            ) && exists|bv: int|
                0 <= bv < pow(16, 64) && eph.secret@ == chars_of(
                    #[trigger] hex_digits_of(bv, 64),
                ) && eph.public@ == chars_of(
                    hex_digits_of(
                        server_pub_val(
                            group_k_val(self.spec_group()),
                            hex_num(verifier@),
                            group_g_val(self.spec_group()),
                            bv,
                            group_n_val(self.spec_group()),
                        ),
                        group_width(self.spec_group()),
                    ),
                ),
    {
        let (n, g, k) = get_group_params(self.group);
        let v = match SrpInteger::from_hex(verifier.as_str()) {
            Ok(x) => x,
            Err(e) => {
                return Err(e);
            },
        };
        let b = SrpInteger::random_integer(HASH_OUTPUT_BYTES);
        let gb = g.mod_pow(&b, &n);
        let kv = k.multiply(&v).modulo(&n);
        let b_pub = kv.add(&gb).modulo(&n);
        proof {
            // ((k·v mod N) + g^b mod N) mod N == (k·v + g^b mod N) mod N
            vstd::arithmetic::div_mod::lemma_add_mod_noop(
                k.val() * v.val(),
                pow(g.val(), b.val() as nat) % n.val(),
                n.val(),
            );
            vstd::arithmetic::div_mod::lemma_mod_twice(
                pow(g.val(), b.val() as nat),
                n.val(),
            );
            lemma_hex_len_bound(b.val(), 64);
            assert(max_nat(64, hex_len_of(b.val())) == 64);
            lemma_hex_len_bound(b_pub.val(), group_width(self.spec_group()));
            assert(max_nat(group_width(self.spec_group()), hex_len_of(b_pub.val()))
                == group_width(self.spec_group()));
            crate::numrep::lemma_hex_digits_are_lower(b.val(), 64);
            crate::numrep::lemma_hex_digits_are_lower(
                b_pub.val(),
                group_width(self.spec_group()),
            );
        }
        let secret = match b.to_hex() {
            Ok(h) => h,
            Err(_) => vstd::pervasive::unreached(),
        };
        let public = match b_pub.to_hex() {
            Ok(h) => h,
            Err(_) => vstd::pervasive::unreached(),
        };
        proof {
            assert(0 <= b.val() < pow(16, 64) && secret@ == chars_of(hex_digits_of(b.val(), 64))
                && public@ == chars_of(
                hex_digits_of(
                    server_pub_val(
                        group_k_val(self.spec_group()),
                        hex_num(verifier@),
                        group_g_val(self.spec_group()),
                        b.val(),
                        group_n_val(self.spec_group()),
                    ),
                    group_width(self.spec_group()),
                ),
            ));
        }
        Ok(ServerEphemeral { secret, public })
    }

    /// Derive the session key and the server proof, checking the client's
    /// proof on the way.
    ///
    /// Errors are reported in the order the checks run: first any hex
    /// failure, in the order `b`, `A`, salt, verifier, `M1`; then the
    /// ephemeral safeguard `A mod N != 0`; then the proof check. Widths
    /// that reach the hash must be even (whole bytes).
    pub fn derive_session(
        &self,
        server_secret_ephemeral: String,
        client_public_ephemeral: String,
        salt: String,
        username: String,
        verifier: String,
        client_session_proof: String,
    ) -> (r: Result<ServerSession, SrpError>)
        requires
            hex_ok(client_public_ephemeral@) ==> hex_width_of(client_public_ephemeral@) % 2 == 0,
            hex_ok(salt@) ==> hex_width_of(salt@) % 2 == 0,
            hex_ok(client_session_proof@) ==> hex_width_of(client_session_proof@) % 2 == 0,
        ensures
            ({
                let grp = self.spec_group();
                let nv = group_n_val(grp);
                let nw = group_width(grp);
                let gv = group_g_val(grp);
                let kv = group_k_val(grp);
                let ok_b = hex_ok(server_secret_ephemeral@);
                let ok_a = hex_ok(client_public_ephemeral@);
                let ok_s = hex_ok(salt@);
                let ok_v = hex_ok(verifier@);
                let ok_m1 = hex_ok(client_session_proof@);
                let bv = hex_num(server_secret_ephemeral@);
                let av = hex_num(client_public_ephemeral@);
                let aw = hex_width_of(client_public_ephemeral@);
                let sv = hex_num(salt@);
                let sw = hex_width_of(salt@);
                let vv = hex_num(verifier@);
                let m1v = hex_num(client_session_proof@);
                let m1w = hex_width_of(client_session_proof@);
                let b_pub = server_pub_val(kv, vv, gv, bv, nv);
                let uv = u_val(av, aw, b_pub, nw);
                let s_val = server_premaster_val(av, vv, uv, bv, nv);
                let k_val = session_key_val(s_val, nw);
                let expected_m1 = m1_val(
                    group_hxor_val(grp),
                    hash_utf8(vstd::utf8::encode_utf8(username@)),
                    sv,
                    sw,
                    av,
                    aw,
                    b_pub,
                    nw,
                    k_val,
                );
                let m2 = m2_val(av, aw, m1v, m1w, k_val);
                &&& (!ok_b ==> r == Err::<ServerSession, SrpError>(SrpError::InvalidHex))
                &&& (ok_b && !ok_a ==> r == Err::<ServerSession, SrpError>(SrpError::InvalidHex))
                &&& (ok_b && ok_a && !ok_s ==> r == Err::<ServerSession, SrpError>(
                    SrpError::InvalidHex,
                ))
                &&& (ok_b && ok_a && ok_s && !ok_v ==> r == Err::<ServerSession, SrpError>(
                    SrpError::InvalidHex,
                ))
                &&& (ok_b && ok_a && ok_s && ok_v && !ok_m1 ==> r == Err::<
                    ServerSession,
                    SrpError,
                >(SrpError::InvalidHex))
                &&& (ok_b && ok_a && ok_s && ok_v && ok_m1 && av % nv == 0 ==> r == Err::<
                    ServerSession,
                    SrpError,
                >(SrpError::InvalidPeerEphemeral))
                &&& (ok_b && ok_a && ok_s && ok_v && ok_m1 && av % nv != 0 && expected_m1 != m1v
                    ==> r == Err::<ServerSession, SrpError>(SrpError::InvalidClientProof))
                &&& (ok_b && ok_a && ok_s && ok_v && ok_m1 && av % nv != 0 && expected_m1 == m1v
                    ==> (r matches Ok(sess) && sess.key@ == chars_of(hex_digits_of(k_val, 64))
                    && sess.proof@ == chars_of(hex_digits_of(m2, 64))))
            }),
    {
        let (n, g, k) = get_group_params(self.group);
        let b = match SrpInteger::from_hex(server_secret_ephemeral.as_str()) {
            Ok(x) => x,
            Err(e) => {
                return Err(e);
            },
        };
        let a_pub = match SrpInteger::from_hex(client_public_ephemeral.as_str()) {
            Ok(x) => x,
            Err(e) => {
                return Err(e);
            },
        };
        let s = match SrpInteger::from_hex(salt.as_str()) {
            Ok(x) => x,
            Err(e) => {
                return Err(e);
            },
        };
        let v = match SrpInteger::from_hex(verifier.as_str()) {
            Ok(x) => x,
            Err(e) => {
                return Err(e);
            },
        };
        let m1 = match SrpInteger::from_hex(client_session_proof.as_str()) {
            Ok(x) => x,
            Err(e) => {
                return Err(e);
            },
        };
        if a_pub.is_zero() || a_pub.modulo(&n).is_zero() {
            proof {
                if a_pub.val() == 0 {
                    vstd::arithmetic::div_mod::lemma_small_mod(0nat, n.val() as nat);
                }
            }
            return Err(SrpError::InvalidPeerEphemeral);
        }
        let b_pub = g.add_mult_pow(&k, &v, &g, &b, &n);
        let u_args = [&a_pub, &b_pub];
        let u = H(u_args.as_slice());
        proof {
            assert(u_args@ =~= seq![&a_pub, &b_pub]);
            let m = u_args@.map_values(|t: &SrpInteger| (t.val(), t.width_nat()));
            assert(m =~= seq![
                (a_pub.val(), a_pub.width_nat()),
                (b_pub.val(), b_pub.width_nat()),
            ]);
        }
        let vu = v.mod_pow(&u, &n);
        let avu = a_pub.multiply(&vu).modulo(&n);
        let s_premaster = avu.mod_pow(&b, &n);
        let k_args = [&s_premaster];
        let k_session = H(k_args.as_slice());
        proof {
            assert(k_args@ =~= seq![&s_premaster]);
            let m = k_args@.map_values(|t: &SrpInteger| (t.val(), t.width_nat()));
            assert(m =~= seq![(s_premaster.val(), s_premaster.width_nat())]);
        }
        let i_hash = H_str(username.as_str());
        let n_g_xor = get_h_N_xor_h_g(self.group);
        let m1_args = [&n_g_xor, &i_hash, &s, &a_pub, &b_pub, &k_session];
        let expected_m1 = H(m1_args.as_slice());
        proof {
            assert(m1_args@ =~= seq![&n_g_xor, &i_hash, &s, &a_pub, &b_pub, &k_session]);
            let m = m1_args@.map_values(|t: &SrpInteger| (t.val(), t.width_nat()));
            assert(m =~= seq![
                (n_g_xor.val(), 64nat),
                (i_hash.val(), 64nat),
                (s.val(), s.width_nat()),
                (a_pub.val(), a_pub.width_nat()),
                (b_pub.val(), b_pub.width_nat()),
                (k_session.val(), 64nat),
            ]);
        }
        if !expected_m1.equals(&m1) {
            return Err(SrpError::InvalidClientProof);
        }
        let m2_args = [&a_pub, &m1, &k_session];
        let m2 = H(m2_args.as_slice());
        proof {
            assert(m2_args@ =~= seq![&a_pub, &m1, &k_session]);
            let m = m2_args@.map_values(|t: &SrpInteger| (t.val(), t.width_nat()));
            assert(m =~= seq![
                (a_pub.val(), a_pub.width_nat()),
                (m1.val(), m1.width_nat()),
                (k_session.val(), 64nat),
            ]);
            lemma_hex_len_bound(k_session.val(), 64);
            assert(max_nat(64, hex_len_of(k_session.val())) == 64);
            lemma_hex_len_bound(m2.val(), 64);
            assert(max_nat(64, hex_len_of(m2.val())) == 64);
        }
        let key = match k_session.to_hex() {
            Ok(h) => h,
            Err(_) => vstd::pervasive::unreached(),
        };
        let proof_hex = match m2.to_hex() {
            Ok(h) => h,
            Err(_) => vstd::pervasive::unreached(),
        };
        Ok(ServerSession { key, proof: proof_hex })
    }
}

/// Generate a server ephemeral pair with the default 2048-bit group.
pub fn generate_ephemeral(verifier: String) -> (r: Result<ServerEphemeral, SrpError>)
    ensures
        r is Ok <==> hex_ok(verifier@),
        r matches Err(e) ==> e == SrpError::InvalidHex,
        r matches Ok(eph) ==> eph.secret@.len() == 64 && eph.public@.len() == group_width(
            SrpGroup::Rfc5054Group2048,
        ) && exists|bv: int|
            0 <= bv < pow(16, 64) && eph.secret@ == chars_of(#[trigger] hex_digits_of(bv, 64))
                && eph.public@ == chars_of(
                hex_digits_of(
                    server_pub_val(
                        group_k_val(SrpGroup::Rfc5054Group2048),
                        hex_num(verifier@),
                        group_g_val(SrpGroup::Rfc5054Group2048),
                        bv,
                        group_n_val(SrpGroup::Rfc5054Group2048),
                    ),
                    group_width(SrpGroup::Rfc5054Group2048),
                ),
            ),
{
    Server::new(None).generate_ephemeral(verifier)
}

/// Derive the server session with the default 2048-bit group.
pub fn derive_session(
    server_secret_ephemeral: String,
    client_public_ephemeral: String,
    salt: String,
    username: String,
    verifier: String,
    client_session_proof: String,
) -> (r: Result<ServerSession, SrpError>)
    requires
        hex_ok(client_public_ephemeral@) ==> hex_width_of(client_public_ephemeral@) % 2 == 0,
        hex_ok(salt@) ==> hex_width_of(salt@) % 2 == 0,
        hex_ok(client_session_proof@) ==> hex_width_of(client_session_proof@) % 2 == 0,
    ensures
        ({
            let grp = SrpGroup::Rfc5054Group2048;
            let nv = group_n_val(grp);
            let nw = group_width(grp);
            let gv = group_g_val(grp);
            let kv = group_k_val(grp);
            let ok_b = hex_ok(server_secret_ephemeral@);
            let ok_a = hex_ok(client_public_ephemeral@);
            let ok_s = hex_ok(salt@);
            let ok_v = hex_ok(verifier@);
            let ok_m1 = hex_ok(client_session_proof@);
            let bv = hex_num(server_secret_ephemeral@);
            let av = hex_num(client_public_ephemeral@);
            let aw = hex_width_of(client_public_ephemeral@);
            let sv = hex_num(salt@);
            let sw = hex_width_of(salt@);
            let vv = hex_num(verifier@);
            let m1v = hex_num(client_session_proof@);
            let m1w = hex_width_of(client_session_proof@);
            let b_pub = server_pub_val(kv, vv, gv, bv, nv);
            let uv = u_val(av, aw, b_pub, nw);
            let s_val = server_premaster_val(av, vv, uv, bv, nv);
            let k_val = session_key_val(s_val, nw);
            let expected_m1 = m1_val(
                group_hxor_val(grp),
                hash_utf8(vstd::utf8::encode_utf8(username@)),
                sv,
                sw,
                av,
                aw,
                b_pub,
                nw,
                k_val,
            );
            let m2 = m2_val(av, aw, m1v, m1w, k_val);
            &&& (!ok_b ==> r == Err::<ServerSession, SrpError>(SrpError::InvalidHex))
            &&& (ok_b && !ok_a ==> r == Err::<ServerSession, SrpError>(SrpError::InvalidHex))
            &&& (ok_b && ok_a && !ok_s ==> r == Err::<ServerSession, SrpError>(
                SrpError::InvalidHex,
            ))
            &&& (ok_b && ok_a && ok_s && !ok_v ==> r == Err::<ServerSession, SrpError>(
                SrpError::InvalidHex,
            ))
            &&& (ok_b && ok_a && ok_s && ok_v && !ok_m1 ==> r == Err::<ServerSession, SrpError>(
                SrpError::InvalidHex,
            ))
            &&& (ok_b && ok_a && ok_s && ok_v && ok_m1 && av % nv == 0 ==> r == Err::<
                ServerSession,
                SrpError,
            >(SrpError::InvalidPeerEphemeral))
            &&& (ok_b && ok_a && ok_s && ok_v && ok_m1 && av % nv != 0 && expected_m1 != m1v ==> r
                == Err::<ServerSession, SrpError>(SrpError::InvalidClientProof))
            &&& (ok_b && ok_a && ok_s && ok_v && ok_m1 && av % nv != 0 && expected_m1 == m1v ==> (
            r matches Ok(sess) && sess.key@ == chars_of(hex_digits_of(k_val, 64)) && sess.proof@
                == chars_of(hex_digits_of(m2, 64))))
        }),
{
    Server::new(None).derive_session(
        server_secret_ephemeral,
        client_public_ephemeral,
        salt,
        username,
        verifier,
        client_session_proof,
    )
}

} // verus!
