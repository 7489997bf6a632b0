//! The RFC 5054 groups and the protocol hash: derived constants pinned to
//! values computed independently from the same formulas.

use srp6a::params::{
    get_group_params, get_h_N_xor_h_g, srp_group_from_value, SrpGroup, H, H_str,
    HASH_OUTPUT_BYTES,
};
use srp6a::srp_integer::SrpInteger;
use srp6a::SrpError;

#[test]
fn group_from_value_accepts_the_five_sizes() {
    assert_eq!(srp_group_from_value(1024).unwrap(), SrpGroup::Rfc5054Group1024);
    assert_eq!(srp_group_from_value(1536).unwrap(), SrpGroup::Rfc5054Group1536);
    assert_eq!(srp_group_from_value(2048).unwrap(), SrpGroup::Rfc5054Group2048);
    assert_eq!(srp_group_from_value(3072).unwrap(), SrpGroup::Rfc5054Group3072);
    assert_eq!(srp_group_from_value(4096).unwrap(), SrpGroup::Rfc5054Group4096);
}

#[test]
fn group_from_value_rejects_other_sizes() {
    assert_eq!(srp_group_from_value(999).unwrap_err(), SrpError::InvalidGroup);
    assert_eq!(srp_group_from_value(0).unwrap_err(), SrpError::InvalidGroup);
    assert_eq!(srp_group_from_value(2047).unwrap_err(), SrpError::InvalidGroup);
}

#[test]
fn default_group_is_2048() {
    assert_eq!(SrpGroup::default(), SrpGroup::Rfc5054Group2048);
    assert_eq!(HASH_OUTPUT_BYTES, 32);
}

#[test]
fn multiplier_k_matches_known_values() {
    let cases = [
        (SrpGroup::Rfc5054Group1024, "bf66c44a428916cad64aa7c679f3fd897ad4c375e9bbb4cbf2f5de241d618ef0"),
        (SrpGroup::Rfc5054Group1536, "5bd97e80aad52c34fa39e391a21a18b9daa1b77427d796d610d47224a681e70d"),
        (SrpGroup::Rfc5054Group2048, "4cba3fb2923e01fb263ddbbb185a01c131c638f2561942e437727e02ca3c266d"),
        (SrpGroup::Rfc5054Group3072, "e08ba292553927cf62783ac3bc9c90f2bdd7325baaca4ac3a098bfa7fe77cfb7"),
        (SrpGroup::Rfc5054Group4096, "3516f0d285667a2bc686470c48edf380fd82558f16ac9fe7978b06b11efaf406"),
    ];
    for (group, expected) in cases {
        let (_, _, k) = get_group_params(group);
        assert_eq!(k.to_hex().unwrap(), expected);
    }
}

#[test]
fn h_n_xor_h_g_matches_known_values() {
    let cases = [
        (SrpGroup::Rfc5054Group1024, "928ade491bc87bba9eb578701d44d30ed9080e60e542ba0d3b9c20ded9f592bf"),
        (SrpGroup::Rfc5054Group1536, "a96efee9e5fe4c1ee087d851299455857f4441a0d32057be4b782cfabb29f9ef"),
        (SrpGroup::Rfc5054Group2048, "4a76a9a2402bdd18123389b72ebbda50a30f65aedb90d7273130edea4b29cc4c"),
        (SrpGroup::Rfc5054Group3072, "afb41193c65fef38202e84bb552b777fbce0332ae5c18763196ced9c9c668687"),
        (SrpGroup::Rfc5054Group4096, "a992cb1d81c8c02eb7649f85823b86bd0fc658eb5e70aa3abb700c707926dde8"),
    ];
    for (group, expected) in cases {
        assert_eq!(get_h_N_xor_h_g(group).to_hex().unwrap(), expected);
    }
}

#[test]
fn h_str_matches_sha256() {
    // SHA-256 of the empty string is a well-known constant.
    assert_eq!(
        H_str("").to_hex().unwrap(),
        "e3b0c44298fc1c149afbf4c8996fb92427ae41e4649b934ca495991b7852b855"
    );
    // SHA-256 of "abc", another published vector.
    assert_eq!(
        H_str("abc").to_hex().unwrap(),
        "ba7816bf8f01cfea414140de5dae2223b00361a396177a9cb410ff61f20015ad"
    );
}

#[test]
fn h_serializes_each_operand_at_its_width() {
    // H over a width-2 value hashes exactly the byte 0x02.
    let two = SrpInteger::from_hex("02").unwrap();
    let args = [&two];
    let h = H(args.as_slice());
    // SHA-256 of the single byte 0x02.
    assert_eq!(
        h.to_hex().unwrap(),
        "dbc1b4c900ffe48d575b5da5c638040125f65db0fe3e24494b76ea986457d986"
    );
    // The same value at width 4 hashes the bytes 0x00 0x02 instead.
    let two_wide = SrpInteger::from_hex("0002").unwrap();
    let args_wide = [&two_wide];
    let h_wide = H(args_wide.as_slice());
    assert_ne!(h.to_hex().unwrap(), h_wide.to_hex().unwrap());
}

#[test]
fn group_primes_have_expected_widths() {
    let widths = [
        (SrpGroup::Rfc5054Group1024, 256),
        (SrpGroup::Rfc5054Group1536, 384),
        (SrpGroup::Rfc5054Group2048, 512),
        (SrpGroup::Rfc5054Group3072, 768),
        (SrpGroup::Rfc5054Group4096, 1024),
    ];
    for (group, w) in widths {
        let (n, g, _) = get_group_params(group);
        assert_eq!(n.to_hex().unwrap().len(), w);
        let g_hex = g.to_hex().unwrap();
        assert!(g_hex == "02" || g_hex == "05");
    }
}
