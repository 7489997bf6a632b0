//! SRP-6a (Secure Remote Password, RFC 5054) with width-preserving hex
//! encoding: a big-integer layer whose serialization is bit-compatible with
//! the widely used JavaScript implementation, the five RFC 5054 groups with
//! SHA-256 hashing, and the client and server sides of the handshake.

pub mod bigint;
pub mod client;
pub mod laws;
pub mod params;
pub mod server;
pub mod numrep;
pub mod srp_integer;

use crate::numrep::{chars_of, hex_digits_of};
use crate::params::{
    client_premaster_val, group_g_val, group_hxor_val, group_k_val, group_n_val, group_width,
    hash_ints, hash_utf8, hex_num, hex_ok, hex_width_of, m1_val, m2_val, private_key_val,
    server_premaster_val, server_pub_val, session_key_val, u_val, verifier_val, SrpGroup,
};
use vstd::arithmetic::power::pow;
use vstd::prelude::*;
use vstd::string::StringSliceAdditionalSpecFns;

verus! {

/// Every failure the library reports. All are immediate and terminal for
/// the handshake in progress; nothing is retried inside the library.
#[derive(Clone, Copy, Debug, PartialEq, Eq, Structural)]
pub enum SrpError {
    /// A supplied hex string does not parse.
    InvalidHex,
    /// An unsupported group bit size was requested.
    InvalidGroup,
    /// The peer's public ephemeral reduces to zero modulo N.
    InvalidPeerEphemeral,
    /// The server's recomputation of the client proof does not match.
    InvalidClientProof,
    /// The client's recomputation of the server proof does not match.
    InvalidServerProof,
    /// `to_hex` was asked to serialize a value that carries no width.
    UnsizedHex,
}

/// The client side of the protocol under the default 2048-bit group, as a
/// single object for hosts that prefer methods over free functions.
pub struct ClientModule {}

impl ClientModule {
    pub fn new() -> (r: Self) {
        ClientModule {  }
    }

    /// See `client::generate_salt`.
    pub fn generate_salt(&self) -> (r: String)
        ensures
            r@.len() == 64,
            exists|sv: int|
                0 <= sv < pow(16, 64) && r@ == chars_of(#[trigger] hex_digits_of(sv, 64)),
    {
        client::generate_salt()
    }

    /// See `client::derive_private_key`.
    pub fn derive_private_key(&self, salt: String, username: String, password: String) -> (r:
        Result<String, SrpError>)
        requires
            hex_ok(salt@) ==> hex_width_of(salt@) % 2 == 0,
        ensures
            r is Ok <==> hex_ok(salt@),
            r matches Err(e) ==> e == SrpError::InvalidHex,
            r matches Ok(x) ==> x@ == chars_of(
                hex_digits_of(
                    private_key_val(hex_num(salt@), hex_width_of(salt@), username@, password@),
                    64,
                ),
            ),
    {
        client::derive_private_key(salt, username, password)
    }

    /// See `client::derive_verifier`.
    pub fn derive_verifier(&self, private_key: String) -> (r: Result<String, SrpError>)
        ensures
            r is Ok <==> hex_ok(private_key@),
            r matches Err(e) ==> e == SrpError::InvalidHex,
            r matches Ok(v) ==> v@ == chars_of(
                hex_digits_of(
                    verifier_val(
                        hex_num(private_key@),
                        group_g_val(SrpGroup::Rfc5054Group2048),
                        group_n_val(SrpGroup::Rfc5054Group2048),
                    ),
                    group_width(SrpGroup::Rfc5054Group2048),
                ),
            ),
    {
        client::derive_verifier(private_key)
    }

    /// See `client::generate_ephemeral`.
    pub fn generate_ephemeral(&self) -> (r: client::ClientEphemeral)
        ensures
            r.secret@.len() == 64,
            r.public@.len() == group_width(SrpGroup::Rfc5054Group2048),
            exists|av: int|
                0 <= av < pow(16, 64) && r.secret@ == chars_of(#[trigger] hex_digits_of(av, 64))
                    && r.public@ == chars_of(
                    hex_digits_of(
                        pow(group_g_val(SrpGroup::Rfc5054Group2048), av as nat) % group_n_val(
                            SrpGroup::Rfc5054Group2048,
                        ),
                        group_width(SrpGroup::Rfc5054Group2048),
                    ),
                ),
    {
        client::generate_ephemeral()
    }

    /// Delegates to `client::derive_session` under the default group.
    pub fn derive_session(
        &self,
        client_secret_ephemeral: String,
        server_public_ephemeral: String,
        salt: String,
        username: String,
        private_key: String,
        client_public_ephemeral: Option<String>,
    ) -> (r: Result<client::ClientSession, SrpError>)
        requires
            hex_ok(server_public_ephemeral@) ==> hex_width_of(server_public_ephemeral@) % 2 == 0,
            hex_ok(salt@) ==> hex_width_of(salt@) % 2 == 0,
            (match client_public_ephemeral {
                Some(ap) => hex_ok(ap@) ==> hex_width_of(ap@) % 2 == 0,
                None => true,
            }),
        ensures
            ({
                let grp = SrpGroup::Rfc5054Group2048;
                let nv = group_n_val(grp);
                let nw = group_width(grp);
                let gv = group_g_val(grp);
                let kv = group_k_val(grp);
                let ok_a = hex_ok(client_secret_ephemeral@);
                let ok_b = hex_ok(server_public_ephemeral@);
                let ok_s = hex_ok(salt@);
                let ok_x = hex_ok(private_key@);
                let ok_ap = match client_public_ephemeral {
                    Some(ap) => hex_ok(ap@),
                    None => true,
                };
                let av = hex_num(client_secret_ephemeral@);
                let bv = hex_num(server_public_ephemeral@);
                let bw = hex_width_of(server_public_ephemeral@);
                let sv = hex_num(salt@);
                let sw = hex_width_of(salt@);
                let xv = hex_num(private_key@);
                let pubv = match client_public_ephemeral {
                    Some(ap) => hex_num(ap@),
                    None => pow(gv, av as nat) % nv,
                };
                let pubw = match client_public_ephemeral {
                    Some(ap) => hex_width_of(ap@),
                    None => nw,
                };
                let uv = u_val(pubv, pubw, bv, bw);
                let s_val = client_premaster_val(bv, kv, gv, xv, av, uv, nv);
                let k_val = session_key_val(s_val, nw);
                let m1 = m1_val(
                    group_hxor_val(grp),
                    hash_utf8(vstd::utf8::encode_utf8(username@)),
                    sv,
                    sw,
                    pubv,
                    pubw,
                    bv,
                    bw,
                    k_val,
                );
                &&& (!ok_a ==> r == Err::<client::ClientSession, SrpError>(SrpError::InvalidHex))
                &&& (ok_a && !ok_ap ==> r == Err::<client::ClientSession, SrpError>(
                    SrpError::InvalidHex,
                ))
                &&& (ok_a && ok_ap && !ok_b ==> r == Err::<client::ClientSession, SrpError>(
                    SrpError::InvalidHex,
                ))
                &&& (ok_a && ok_ap && ok_b && bv % nv == 0 ==> r == Err::<
                    client::ClientSession,
                    SrpError,
                >(SrpError::InvalidPeerEphemeral))
                &&& (ok_a && ok_ap && ok_b && bv % nv != 0 && !(ok_s && ok_x) ==> r == Err::<
                    client::ClientSession,
                    SrpError,
                >(SrpError::InvalidHex))
                &&& (ok_a && ok_ap && ok_b && bv % nv != 0 && ok_s && ok_x ==> (r matches Ok(sess)
                    && sess.key@ == chars_of(hex_digits_of(k_val, 64)) && sess.proof@ == chars_of(
                    hex_digits_of(m1, 64),
                )))
            }),
    {
        client::derive_session(
            client_secret_ephemeral,
            server_public_ephemeral,
            salt,
            username,
            private_key,
            client_public_ephemeral,
        )
    }

    /// Delegates to `client::verify_session`.
    pub fn verify_session(
        &self,
        client_public_ephemeral: String,
        client_session: client::ClientSession,
        server_session_proof: String,
    ) -> (r: Result<(), SrpError>)
        requires
            hex_ok(client_public_ephemeral@) ==> hex_width_of(client_public_ephemeral@) % 2 == 0,
            hex_ok(client_session.proof@) ==> hex_width_of(client_session.proof@) % 2 == 0,
        ensures
            ({
                let kb = vstd::utf8::encode_utf8(client_session.key@);
                let ok_a = hex_ok(client_public_ephemeral@);
                let ok_m1 = hex_ok(client_session.proof@);
                let ok_k = kb.len() % 2 == 0 && kb.len() > 0 && crate::numrep::all_hex_digits(kb);
                let ok_m2 = hex_ok(server_session_proof@);
                let expected = hash_ints(
                    seq![
                        (hex_num(client_public_ephemeral@), hex_width_of(client_public_ephemeral@)),
                        (hex_num(client_session.proof@), hex_width_of(client_session.proof@)),
                        (crate::numrep::hex_value(kb), kb.len()),
                    ],
                );
                &&& (!ok_a ==> r == Err::<(), SrpError>(SrpError::InvalidHex))
                &&& (ok_a && !ok_m1 ==> r == Err::<(), SrpError>(SrpError::InvalidHex))
                &&& (ok_a && ok_m1 && !ok_k ==> r == Err::<(), SrpError>(SrpError::InvalidHex))
                &&& (ok_a && ok_m1 && ok_k && !ok_m2 ==> r == Err::<(), SrpError>(
                    SrpError::InvalidHex,
                ))
                &&& (ok_a && ok_m1 && ok_k && ok_m2 ==> r == (if expected == hex_num(
                    server_session_proof@,
                ) {
                    Ok::<(), SrpError>(())
                } else {
                    Err::<(), SrpError>(SrpError::InvalidServerProof)
                }))
            }),
    {
        client::verify_session(client_public_ephemeral, client_session, server_session_proof)
    }
}

/// The server side of the protocol under the default 2048-bit group, as a
/// single object for hosts that prefer methods over free functions.
pub struct ServerModule {}

impl ServerModule {
    pub fn new() -> (r: Self) {
        ServerModule {  }
    }

    /// Delegates to `server::generate_ephemeral` under the default group.
    pub fn generate_ephemeral(&self, verifier: String) -> (r: Result<
        server::ServerEphemeral,
        SrpError,
    >)
        ensures
            r is Ok <==> hex_ok(verifier@),
            r matches Err(e) ==> e == SrpError::InvalidHex,
            r matches Ok(eph) ==> eph.secret@.len() == 64 && eph.public@.len() == group_width(
                SrpGroup::Rfc5054Group2048,
            ) && exists|bv: int|
                0 <= bv < pow(16, 64) && eph.secret@ == chars_of(#[trigger] hex_digits_of(bv, 64))
                    && eph.public@ == chars_of(
                    hex_digits_of(
                        server_pub_val(
                            group_k_val(SrpGroup::Rfc5054Group2048),
                            hex_num(verifier@),
                            group_g_val(SrpGroup::Rfc5054Group2048),
                            bv,
                            group_n_val(SrpGroup::Rfc5054Group2048),
                        ),
                        group_width(SrpGroup::Rfc5054Group2048),
                    ),
                ),
    {
        server::generate_ephemeral(verifier)
    }

    /// Delegates to `server::derive_session` under the default group.
    pub fn derive_session(
        &self,
        server_secret_ephemeral: String,
        client_public_ephemeral: String,
        salt: String,
        username: String,
        verifier: String,
        client_session_proof: String,
    ) -> (r: Result<server::ServerSession, SrpError>)
        requires
            hex_ok(client_public_ephemeral@) ==> hex_width_of(client_public_ephemeral@) % 2 == 0,
            hex_ok(salt@) ==> hex_width_of(salt@) % 2 == 0,
            hex_ok(client_session_proof@) ==> hex_width_of(client_session_proof@) % 2 == 0,
        ensures
            ({
                let grp = SrpGroup::Rfc5054Group2048;
                let nv = group_n_val(grp);
                let nw = group_width(grp);
                let gv = group_g_val(grp);
                let kv = group_k_val(grp);
                let ok_b = hex_ok(server_secret_ephemeral@);
                let ok_a = hex_ok(client_public_ephemeral@);
                let ok_s = hex_ok(salt@);
                let ok_v = hex_ok(verifier@);
                let ok_m1 = hex_ok(client_session_proof@);
                let bv = hex_num(server_secret_ephemeral@);
                let av = hex_num(client_public_ephemeral@);
                let aw = hex_width_of(client_public_ephemeral@);
                let sv = hex_num(salt@);
                let sw = hex_width_of(salt@);
                let vv = hex_num(verifier@);
                let m1v = hex_num(client_session_proof@);
                let m1w = hex_width_of(client_session_proof@);
                let b_pub = server_pub_val(kv, vv, gv, bv, nv);
                let uv = u_val(av, aw, b_pub, nw);
                let s_val = server_premaster_val(av, vv, uv, bv, nv);
                let k_val = session_key_val(s_val, nw);
                let expected_m1 = m1_val(
                    group_hxor_val(grp),
                    hash_utf8(vstd::utf8::encode_utf8(username@)),
                    sv,
                    sw,
                    av,
                    aw,
                    b_pub,
                    nw,
                    k_val,
                );
                let m2 = m2_val(av, aw, m1v, m1w, k_val);
                &&& (!ok_b ==> r == Err::<server::ServerSession, SrpError>(SrpError::InvalidHex))
                &&& (ok_b && !ok_a ==> r == Err::<server::ServerSession, SrpError>(
                    SrpError::InvalidHex,
                ))
                &&& (ok_b && ok_a && !ok_s ==> r == Err::<server::ServerSession, SrpError>(
                    SrpError::InvalidHex,
                ))
                &&& (ok_b && ok_a && ok_s && !ok_v ==> r == Err::<server::ServerSession, SrpError>(
                    SrpError::InvalidHex,
                ))
                &&& (ok_b && ok_a && ok_s && ok_v && !ok_m1 ==> r == Err::<
                    server::ServerSession,
                    SrpError,
                >(SrpError::InvalidHex))
                &&& (ok_b && ok_a && ok_s && ok_v && ok_m1 && av % nv == 0 ==> r == Err::<
                    server::ServerSession,
                    SrpError,
                >(SrpError::InvalidPeerEphemeral))
                &&& (ok_b && ok_a && ok_s && ok_v && ok_m1 && av % nv != 0 && expected_m1 != m1v
                    ==> r == Err::<server::ServerSession, SrpError>(SrpError::InvalidClientProof))
                &&& (ok_b && ok_a && ok_s && ok_v && ok_m1 && av % nv != 0 && expected_m1 == m1v
                    ==> (r matches Ok(sess) && sess.key@ == chars_of(hex_digits_of(k_val, 64))
                    && sess.proof@ == chars_of(hex_digits_of(m2, 64))))
            }),
    {
        server::derive_session(
            server_secret_ephemeral,
            client_public_ephemeral,
            salt,
            username,
            verifier,
            client_session_proof,
        )
    }
}

} // verus!
