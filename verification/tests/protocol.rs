//! End-to-end protocol scenarios on the 2048-bit group, pinned to values
//! computed independently from the same formulas, and a handshake sweep
//! over all five groups.

use srp6a::client::{self, Client};
use srp6a::params::SrpGroup;
use srp6a::server::{self, Server};
use srp6a::{ClientModule, ServerModule, SrpError};

const SALT: &str = "0000000000000000000000000000000000000000000000000000000000000001";
const IDENTITY: &str = "alice";
const PASSWORD: &str = "password123";

const X_EXPECTED: &str = "b53d4eafc157ec81bb80a705be1e54ff6d36e33de0749f265dda1c4e996c8116";
const V_EXPECTED: &str = "6e14d106c54b06292250a8a336fd4dd196d4dd0bbc2797014710a2279c18c1f80706fb9ebeead2dae1f1f96177f5622ce30228a986e1bf9ba1752e54adaa70c7e7a764fccac3561da00a64e070b5b6df2d030a726f4a8c67a835f0ae799ec51dfccbde792afb34992206eb5d54783ccf5e6cb03f8e23fa7a5dd83efe9e6f26e6c69fa49aa2ddeb82be8c11761444a899cd99eec0e157b797aff9e0e8aa8ec4feb2512f164d96412b77afac43460c193ccd63dcb6c574ff0894099d794d7356822cd4f9b21b71102f0fac0ef37af17dc00cd0f7b8c530a2fccf5ab09425b6c25f02ef261a56d12f147b2c25851ae57f1b8a537d9aa14926177d3b27094fa0d602";

const A_SECRET: &str = "60975527035cf2ad1989806f0407210bc81edc04e2762a56afd529ddda2d4393";
const B_SECRET: &str = "e487cb59d31ac550471e81f00f6928e01dda08e974a004f49e61f5d105284d20";
const A_PUBLIC: &str = "4b700f8d48e69c9aae40c684ac7c7c03121e2b7602eb4c3514804ccada0ed4019193a351ecc65a6f854ede91eb096e721b22d701c7adc64e9cedacd75f2e26bb2f5e45dd53dc8dbeafffe82aa49fca0573444691212537a73cf80e25039258205a7edf4749b30adaf25877c62fcd09d6613598bcd4baf2a9727a53706a278148992b2abb23ad5d512d269e16ca11bc0895b5a3b5ec4721cde40a8c39c796e94f0be86dbbeb33da7037018983921aba3f5053195d5ac1da4e567e3c0e75d9e0609f92e850657b2be4771f415b9cacc5c1ecedc30133bf6474f5022c6519d780760ca4d8d3b966b034bd73877c1b3b33f474b9c3c5299a1968f3e6cd3bfe84445a";
const B_PUBLIC: &str = "5ea95c9f975df162185169209dc77cbdc995142db0c4a1c8564533a8be33a9115a8c31b59ae9272343a4dbdd6ee0e82c365d973858e4b81d703d6c53eb533b0c8f41227ba751f2db36306ffdee51d371db114f7887947cc914b12fa224a2e3b8ac121e823b1954598548dd8b061bb9c93ffc7e3ded06142e3995c99b365d3651739595f1f691af918d0447135fa94846f3b216767aea49ff2bd0605716c14680855fb0891a5be820417a80d82602ab91dc126a3cba3389aecd63a4455b5e5c6f18e2c5f308e9f12d2e09691ad3da0e1c7dc662b614f44f5651f0aab03b994b95c388ef3860d88838aa30e3cb87c7a813c4f72239788c70f3241e1852ee61abf4";
const K_EXPECTED: &str = "f630f0787af9ac5f265cb03bf35cd6ba5fda7bc0877146d20ad1e86c19f0b94a";
const M1_EXPECTED: &str = "661148d2447885ee709ea5354895e373299fc23523a8ee992e8da8cbea4fbf8b";
const M2_EXPECTED: &str = "bfeb7ca492686dd069f0deb92dea3d0eadd4ee9f4a72643a772b490d2a651454";

#[test]
fn scenario_registration() {
    let x = client::derive_private_key(SALT.into(), IDENTITY.into(), PASSWORD.into()).unwrap();
    assert_eq!(x, X_EXPECTED);
    let v = client::derive_verifier(x.clone()).unwrap();
    assert_eq!(v, V_EXPECTED);
    // recomputing from the same inputs yields the same bytes
    let x2 = client::derive_private_key(SALT.into(), IDENTITY.into(), PASSWORD.into()).unwrap();
    assert_eq!(x, x2);
    assert_eq!(client::derive_verifier(x2).unwrap(), v);
}

#[test]
fn scenario_successful_handshake() {
    let x = client::derive_private_key(SALT.into(), IDENTITY.into(), PASSWORD.into()).unwrap();
    let v = client::derive_verifier(x.clone()).unwrap();

    let client_session = client::derive_session(
        A_SECRET.into(),
        B_PUBLIC.into(),
        SALT.into(),
        IDENTITY.into(),
        x,
        None,
    )
    .unwrap();
    assert_eq!(client_session.key, K_EXPECTED);
    assert_eq!(client_session.proof, M1_EXPECTED);

    let server_session = server::derive_session(
        B_SECRET.into(),
        A_PUBLIC.into(),
        SALT.into(),
        IDENTITY.into(),
        v,
        client_session.proof.clone(),
    )
    .unwrap();
    assert_eq!(server_session.key, K_EXPECTED);
    assert_eq!(server_session.proof, M2_EXPECTED);

    client::verify_session(A_PUBLIC.into(), client_session, server_session.proof).unwrap();
}

#[test]
fn scenario_supplied_client_public() {
    // Passing A explicitly gives the same session as recomputing it.
    let x = client::derive_private_key(SALT.into(), IDENTITY.into(), PASSWORD.into()).unwrap();
    let with_a = client::derive_session(
        A_SECRET.into(),
        B_PUBLIC.into(),
        SALT.into(),
        IDENTITY.into(),
        x.clone(),
        Some(A_PUBLIC.into()),
    )
    .unwrap();
    assert_eq!(with_a.key, K_EXPECTED);
    assert_eq!(with_a.proof, M1_EXPECTED);
}

#[test]
fn scenario_wrong_password() {
    let x_bad = client::derive_private_key(SALT.into(), IDENTITY.into(), "password124".into())
        .unwrap();
    let v_good = {
        let x = client::derive_private_key(SALT.into(), IDENTITY.into(), PASSWORD.into())
            .unwrap();
        client::derive_verifier(x).unwrap()
    };
    let client_session = client::derive_session(
        A_SECRET.into(),
        B_PUBLIC.into(),
        SALT.into(),
        IDENTITY.into(),
        x_bad,
        None,
    )
    .unwrap();
    let err = server::derive_session(
        B_SECRET.into(),
        A_PUBLIC.into(),
        SALT.into(),
        IDENTITY.into(),
        v_good,
        client_session.proof,
    )
    .unwrap_err();
    assert_eq!(err, SrpError::InvalidClientProof);
}

#[test]
fn scenario_bad_server_public() {
    // B of all zeros is rejected by the client.
    let x = client::derive_private_key(SALT.into(), IDENTITY.into(), PASSWORD.into()).unwrap();
    let zeros = "0".repeat(512);
    let err = client::derive_session(
        A_SECRET.into(),
        zeros,
        SALT.into(),
        IDENTITY.into(),
        x,
        None,
    )
    .unwrap_err();
    assert_eq!(err, SrpError::InvalidPeerEphemeral);
}

#[test]
fn server_public_equal_to_n_is_rejected() {
    // B equal to N reduces to zero modulo N, so the client rejects it too.
    let n_hex = "ac6bdb41324a9a9bf166de5e1389582faf72b6651987ee07fc3192943db56050a37329cbb4a099ed8193e0757767a13dd52312ab4b03310dcd7f48a9da04fd50e8083969edb767b0cf6095179a163ab3661a05fbd5faaae82918a9962f0b93b855f97993ec975eeaa80d740adbf4ff747359d041d5c33ea71d281e446b14773bca97b43a23fb801676bd207a436c6481f1d2b9078717461a5b9d32e688f87748544523b524b0d57d5ea77a2775d2ecfa032cfbdbf52fb3786160279004e57ae6af874e7303ce53299ccc041c7bc308d82a5698f3a8d0c38271ae35f8e9dbfbb694b5c803d89f7ae435de236d525f54759b65e372fcd68ef20fa7111f9e4aff73";
    let x = client::derive_private_key(SALT.into(), IDENTITY.into(), PASSWORD.into()).unwrap();
    let err = client::derive_session(
        A_SECRET.into(),
        n_hex.to_string(),
        SALT.into(),
        IDENTITY.into(),
        x,
        None,
    )
    .unwrap_err();
    assert_eq!(err, SrpError::InvalidPeerEphemeral);
}

#[test]
fn scenario_bad_client_public() {
    // A equal to N is rejected by the server.
    let n_hex = "AC6BDB41324A9A9BF166DE5E1389582FAF72B6651987EE07FC3192943DB56050A37329CBB4A099ED8193E0757767A13DD52312AB4B03310DCD7F48A9DA04FD50E8083969EDB767B0CF6095179A163AB3661A05FBD5FAAAE82918A9962F0B93B855F97993EC975EEAA80D740ADBF4FF747359D041D5C33EA71D281E446B14773BCA97B43A23FB801676BD207A436C6481F1D2B9078717461A5B9D32E688F87748544523B524B0D57D5EA77A2775D2ECFA032CFBDBF52FB3786160279004E57AE6AF874E7303CE53299CCC041C7BC308D82A5698F3A8D0C38271AE35F8E9DBFBB694B5C803D89F7AE435DE236D525F54759B65E372FCD68EF20FA7111F9E4AFF73";
    let x = client::derive_private_key(SALT.into(), IDENTITY.into(), PASSWORD.into()).unwrap();
    let v = client::derive_verifier(x).unwrap();
    let err = server::derive_session(
        B_SECRET.into(),
        n_hex.to_string(),
        SALT.into(),
        IDENTITY.into(),
        v,
        M1_EXPECTED.into(),
    )
    .unwrap_err();
    assert_eq!(err, SrpError::InvalidPeerEphemeral);
}

#[test]
fn scenario_group_sweep() {
    for bits in [1024u32, 1536, 2048, 3072, 4096] {
        let group = srp6a::params::srp_group_from_value(bits).unwrap();
        let client = Client::new(Some(group));
        let server = Server::new(Some(group));

        let salt = client.generate_salt();
        let x = client
            .derive_private_key(salt.clone(), IDENTITY.into(), PASSWORD.into())
            .unwrap();
        let v = client.derive_verifier(x.clone()).unwrap();

        let client_eph = client.generate_ephemeral();
        let server_eph = server.generate_ephemeral(v.clone()).unwrap();

        let client_session = client
            .derive_session(
                client_eph.secret,
                server_eph.public,
                salt.clone(),
                IDENTITY.into(),
                x,
                None,
            )
            .unwrap();
        let server_session = server
            .derive_session(
                server_eph.secret,
                client_eph.public.clone(),
                salt,
                IDENTITY.into(),
                v,
                client_session.proof.clone(),
            )
            .unwrap();
        assert_eq!(client_session.key, server_session.key, "group {}", bits);
        client
            .verify_session(client_eph.public, client_session, server_session.proof)
            .unwrap();
    }
}

#[test]
fn tampered_server_proof_is_rejected() {
    let x = client::derive_private_key(SALT.into(), IDENTITY.into(), PASSWORD.into()).unwrap();
    let client_session = client::derive_session(
        A_SECRET.into(),
        B_PUBLIC.into(),
        SALT.into(),
        IDENTITY.into(),
        x,
        None,
    )
    .unwrap();
    // flip the last digit of M2
    let mut tampered = M2_EXPECTED.to_string();
    let last = tampered.pop().unwrap();
    tampered.push(if last == '4' { '5' } else { '4' });
    let err = client::verify_session(A_PUBLIC.into(), client_session, tampered).unwrap_err();
    assert_eq!(err, SrpError::InvalidServerProof);
}

#[test]
fn generated_salts_and_ephemerals_have_protocol_widths() {
    let salt = client::generate_salt();
    assert_eq!(salt.len(), 64);
    let eph = client::generate_ephemeral();
    assert_eq!(eph.secret.len(), 64);
    assert_eq!(eph.public.len(), 512);
    let x = client::derive_private_key(salt, IDENTITY.into(), PASSWORD.into()).unwrap();
    let v = client::derive_verifier(x).unwrap();
    assert_eq!(v.len(), 512);
    let server_eph = server::generate_ephemeral(v).unwrap();
    assert_eq!(server_eph.secret.len(), 64);
    assert_eq!(server_eph.public.len(), 512);
}

#[test]
fn module_objects_run_the_default_group_flow() {
    let client = ClientModule::new();
    let server = ServerModule::new();
    let salt = client.generate_salt();
    let x = client
        .derive_private_key(salt.clone(), IDENTITY.into(), PASSWORD.into())
        .unwrap();
    let v = client.derive_verifier(x.clone()).unwrap();
    let client_eph = client.generate_ephemeral();
    let server_eph = server.generate_ephemeral(v.clone()).unwrap();
    let client_session = client
        .derive_session(
            client_eph.secret,
            server_eph.public,
            salt.clone(),
            IDENTITY.into(),
            x,
            None,
        )
        .unwrap();
    let server_session = server
        .derive_session(
            server_eph.secret,
            client_eph.public.clone(),
            salt,
            IDENTITY.into(),
            v,
            client_session.proof.clone(),
        )
        .unwrap();
    assert_eq!(client_session.key, server_session.key);
    client
        .verify_session(client_eph.public, client_session, server_session.proof)
        .unwrap();
}

#[test]
fn invalid_hex_surfaces_from_every_entry_point() {
    assert_eq!(
        client::derive_private_key("xyz".into(), IDENTITY.into(), PASSWORD.into()).unwrap_err(),
        SrpError::InvalidHex
    );
    assert_eq!(client::derive_verifier("xyz".into()).unwrap_err(), SrpError::InvalidHex);
    assert_eq!(
        server::generate_ephemeral("not hex".into()).unwrap_err(),
        SrpError::InvalidHex
    );
    let err = client::derive_session(
        "zz".into(),
        B_PUBLIC.into(),
        SALT.into(),
        IDENTITY.into(),
        X_EXPECTED.into(),
        None,
    )
    .unwrap_err();
    assert_eq!(err, SrpError::InvalidHex);
}
