//! The five RFC 5054 parameter groups, the protocol hash `H`, and the
//! constants derived from each group: the multiplier `k = H(N, g)` and the
//! value `H(N) XOR H(g)` that enters the client proof. Group data is held
//! as bytes so each parameter carries its exact width.

use crate::numrep::{bytes_of, bytes_value};
use crate::srp_integer::{xor_val, SrpInteger};
use crate::SrpError;
use sha2::Digest;
use vstd::prelude::*;
use vstd::string::StringSliceAdditionalSpecFns;

verus! {

/// SHA-256 digest size in bytes.
pub const HASH_OUTPUT_BYTES: usize = 32;

/// What SHA-256 returns: a pure function of the input bytes alone.
pub uninterp spec fn sha256_of(data: Seq<u8>) -> Seq<u8>;

/// Relies on `sha2::Sha256` through the `Digest` trait: the digest is a
/// function of the written bytes alone and is exactly 32 bytes long.
#[verifier::external_body]
fn sha256(data: &[u8]) -> (r: Vec<u8>)
    ensures
        r@ == sha256_of(data@),
        r@.len() == 32,
{
    sha2::Sha256::digest(data).to_vec()
}

/// A width-annotated integer serialized for hashing: its value in big
/// endian, in exactly half its hex width of bytes.
pub open spec fn ser_int(v: int, w: nat) -> Seq<u8> {
    bytes_of(v, w / 2)
}

/// The serialized concatenation of a list of (value, width) operands.
pub open spec fn ser_all(args: Seq<(int, nat)>) -> Seq<u8>
    decreases args.len(),
{
    if args.len() == 0 {
        Seq::empty()
    } else {
        ser_all(args.drop_last()) + ser_int(args.last().0, args.last().1)
    }
}

/// The integer `H` returns for a list of operands.
pub open spec fn hash_ints(args: Seq<(int, nat)>) -> int {
    bytes_value(sha256_of(ser_all(args)))
}

/// The integer `H_str` returns for a string: SHA-256 over its UTF-8 bytes.
pub open spec fn hash_utf8(bytes: Seq<u8>) -> int {
    bytes_value(sha256_of(bytes))
}

/// SRP protocol hash: each operand is serialized to its declared width and
/// the digest of the concatenation is read as an integer of width 64.
#[allow(nonstandard_style)]
pub fn H(args: &[&SrpInteger]) -> (r: SrpInteger)
    requires
        forall|i: int| 0 <= i < args@.len() ==> (#[trigger] args@[i]).hashable(),
    ensures
        r.val() == hash_ints(args@.map_values(|x: &SrpInteger| (x.val(), x.width_nat()))),
        r.val() >= 0,
        r.width() == Some(64usize),
        r.hashable(),
{
    let ghost all = args@.map_values(|x: &SrpInteger| (x.val(), x.width_nat()));
    let mut buf: Vec<u8> = Vec::new();
    let mut i: usize = 0;
    while i < args.len()
        invariant
            i <= args@.len(),
            all == args@.map_values(|x: &SrpInteger| (x.val(), x.width_nat())),
            forall|j: int| 0 <= j < args@.len() ==> (#[trigger] args@[j]).hashable(),
            buf@ == ser_all(all.take(i as int)),
        decreases args@.len() - i,
    {
        let mut piece = args[i].serialized();
        buf.append(&mut piece);
        proof {
            assert(all.take(i as int + 1).drop_last() =~= all.take(i as int));
            assert(all.take(i as int + 1).last() == all[i as int]);
        }
        i += 1;
    }
    proof {
        assert(all.take(all.len() as int) =~= all);
    }
    let digest = sha256(buf.as_slice());
    SrpInteger::from_bytes(digest.as_slice())
}

/// SHA-256 of the raw UTF-8 bytes of a string, read as an integer of
/// width 64.
#[allow(nonstandard_style)]
pub fn H_str(s: &str) -> (r: SrpInteger)
    ensures
        r.val() == hash_utf8(s.spec_bytes()),
        r.val() >= 0,
        r.width() == Some(64usize),
        r.hashable(),
{
    let digest = sha256(s.as_bytes());
    SrpInteger::from_bytes(digest.as_slice())
}

/// A hex string parses: after whitespace stripping at least one byte
/// remains and every one is a hex digit.
pub open spec fn hex_ok(s: Seq<char>) -> bool {
    let c = crate::numrep::clean_hex(vstd::utf8::encode_utf8(s));
    c.len() > 0 && crate::numrep::all_hex_digits(c)
}

/// The integer a hex string denotes after whitespace stripping.
pub open spec fn hex_num(s: Seq<char>) -> int {
    crate::numrep::hex_value(crate::numrep::clean_hex(vstd::utf8::encode_utf8(s)))
}

/// The width parsing a hex string records: its digit count.
pub open spec fn hex_width_of(s: Seq<char>) -> nat {
    crate::numrep::clean_hex(vstd::utf8::encode_utf8(s)).len()
}

/// The scrambling parameter `u = H(A, B)`.
pub open spec fn u_val(av: int, aw: nat, bv: int, bw: nat) -> int {
    hash_ints(seq![(av, aw), (bv, bw)])
}

/// The session key `K = H(S)`, with `S` carrying the group width.
pub open spec fn session_key_val(sv: int, nw: nat) -> int {
    hash_ints(seq![(sv, nw)])
}

/// The client proof `M1 = H(H(N) XOR H(g), H(I), s, A, B, K)`.
pub open spec fn m1_val(
    hxor: int,
    ih: int,
    sv: int,
    sw: nat,
    av: int,
    aw: nat,
    bv: int,
    bw: nat,
    kv: int,
) -> int {
    hash_ints(seq![(hxor, 64nat), (ih, 64nat), (sv, sw), (av, aw), (bv, bw), (kv, 64nat)])
}

/// The server proof `M2 = H(A, M1, K)`.
pub open spec fn m2_val(av: int, aw: nat, m1: int, m1w: nat, kv: int) -> int {
    hash_ints(seq![(av, aw), (m1, m1w), (kv, 64nat)])
}

/// The server's public ephemeral `B = (k·v + g^b) mod N`.
pub open spec fn server_pub_val(k: int, vv: int, g: int, bv: int, nv: int) -> int {
    (k * vv + vstd::arithmetic::power::pow(g, bv as nat) % nv) % nv
}

/// The client's premaster secret `S = (B - k·g^x)^(a + u·x) mod N`.
pub open spec fn client_premaster_val(
    bv: int,
    k: int,
    g: int,
    xv: int,
    av: int,
    uv: int,
    nv: int,
) -> int {
    vstd::arithmetic::power::pow(
        bv - k * (vstd::arithmetic::power::pow(g, xv as nat) % nv),
        (av + uv * xv) as nat,
    ) % nv
}

/// The server's premaster secret `S = (A·v^u)^b mod N`.
pub open spec fn server_premaster_val(av: int, vv: int, uv: int, bv: int, nv: int) -> int {
    vstd::arithmetic::power::pow(
        (av * (vstd::arithmetic::power::pow(vv, uv as nat) % nv)) % nv,
        bv as nat,
    ) % nv
}

/// The private key `x = H(s, H(I ":" p))`.
pub open spec fn private_key_val(sv: int, sw: nat, id: Seq<char>, pw: Seq<char>) -> int {
    hash_ints(
        seq![
            (sv, sw),
            (hash_utf8(vstd::utf8::encode_utf8(id + ":"@ + pw)), 64nat),
        ],
    )
}

/// The password verifier `v = g^x mod N`.
pub open spec fn verifier_val(xv: int, g: int, nv: int) -> int {
    vstd::arithmetic::power::pow(g, xv as nat) % nv
}

/// The RFC 5054 parameter groups the library supports.
#[derive(Clone, Copy, Debug, PartialEq, Eq, Structural)]
pub enum SrpGroup {
    /// 1024-bit group.
    Rfc5054Group1024,
    /// 1536-bit group.
    Rfc5054Group1536,
    /// 2048-bit group (the default).
    Rfc5054Group2048,
    /// 3072-bit group.
    Rfc5054Group3072,
    /// 4096-bit group.
    Rfc5054Group4096,
}

impl Default for SrpGroup {
    /// The 2048-bit group, for compatibility with the stateless interface.
    fn default() -> (r: Self)
        ensures
            r == SrpGroup::Rfc5054Group2048,
    {
        SrpGroup::Rfc5054Group2048
    }
}

/// Map a bit size to its group tag.
pub fn srp_group_from_value(value: u32) -> (r: Result<SrpGroup, SrpError>)
    ensures
        value == 1024 ==> r == Ok::<SrpGroup, SrpError>(SrpGroup::Rfc5054Group1024),
        value == 1536 ==> r == Ok::<SrpGroup, SrpError>(SrpGroup::Rfc5054Group1536),
        value == 2048 ==> r == Ok::<SrpGroup, SrpError>(SrpGroup::Rfc5054Group2048),
        value == 3072 ==> r == Ok::<SrpGroup, SrpError>(SrpGroup::Rfc5054Group3072),
        value == 4096 ==> r == Ok::<SrpGroup, SrpError>(SrpGroup::Rfc5054Group4096),
        !(value == 1024 || value == 1536 || value == 2048 || value == 3072 || value == 4096)
            ==> r == Err::<SrpGroup, SrpError>(SrpError::InvalidGroup),
{
    match value {
        1024 => Ok(SrpGroup::Rfc5054Group1024),
        1536 => Ok(SrpGroup::Rfc5054Group1536),
        2048 => Ok(SrpGroup::Rfc5054Group2048),
        3072 => Ok(SrpGroup::Rfc5054Group3072),
        4096 => Ok(SrpGroup::Rfc5054Group4096),
        _ => Err(SrpError::InvalidGroup),
    }
}

/// The 1024-bit safe prime of RFC 5054, as big-endian bytes.
pub open spec fn n_bytes_1024() -> Seq<u8> {
    seq![
        0xeeu8, 0xaf, 0x0a, 0xb9, 0xad, 0xb3, 0x8d, 0xd6, 0x9c, 0x33, 0xf8, 0x0a, 0xfa, 0x8f,
        0xc5, 0xe8, 0x60, 0x72, 0x61, 0x87, 0x75, 0xff, 0x3c, 0x0b, 0x9e, 0xa2, 0x31, 0x4c,
        0x9c, 0x25, 0x65, 0x76, 0xd6, 0x74, 0xdf, 0x74, 0x96, 0xea, 0x81, 0xd3, 0x38, 0x3b,
        0x48, 0x13, 0xd6, 0x92, 0xc6, 0xe0, 0xe0, 0xd5, 0xd8, 0xe2, 0x50, 0xb9, 0x8b, 0xe4,
        0x8e, 0x49, 0x5c, 0x1d, 0x60, 0x89, 0xda, 0xd1, 0x5d, 0xc7, 0xd7, 0xb4, 0x61, 0x54,
        0xd6, 0xb6, 0xce, 0x8e, 0xf4, 0xad, 0x69, 0xb1, 0x5d, 0x49, 0x82, 0x55, 0x9b, 0x29,
        0x7b, 0xcf, 0x18, 0x85, 0xc5, 0x29, 0xf5, 0x66, 0x66, 0x0e, 0x57, 0xec, 0x68, 0xed,
        0xbc, 0x3c, 0x05, 0x72, 0x6c, 0xc0, 0x2f, 0xd4, 0xcb, 0xf4, 0x97, 0x6e, 0xaa, 0x9a,
        0xfd, 0x51, 0x38, 0xfe, 0x83, 0x76, 0x43, 0x5b, 0x9f, 0xc6, 0x1d, 0x2f, 0xc0, 0xeb,
        0x06, 0xe3,
    ]
}

fn n_vec_1024() -> (r: Vec<u8>)
    ensures
        r@ == n_bytes_1024(),
        r@.len() == 128,
{
    let v: Vec<u8> = vec![
        0xeeu8, 0xaf, 0x0a, 0xb9, 0xad, 0xb3, 0x8d, 0xd6, 0x9c, 0x33, 0xf8, 0x0a, 0xfa, 0x8f,
        0xc5, 0xe8, 0x60, 0x72, 0x61, 0x87, 0x75, 0xff, 0x3c, 0x0b, 0x9e, 0xa2, 0x31, 0x4c,
        0x9c, 0x25, 0x65, 0x76, 0xd6, 0x74, 0xdf, 0x74, 0x96, 0xea, 0x81, 0xd3, 0x38, 0x3b,
        0x48, 0x13, 0xd6, 0x92, 0xc6, 0xe0, 0xe0, 0xd5, 0xd8, 0xe2, 0x50, 0xb9, 0x8b, 0xe4,
        0x8e, 0x49, 0x5c, 0x1d, 0x60, 0x89, 0xda, 0xd1, 0x5d, 0xc7, 0xd7, 0xb4, 0x61, 0x54,
        0xd6, 0xb6, 0xce, 0x8e, 0xf4, 0xad, 0x69, 0xb1, 0x5d, 0x49, 0x82, 0x55, 0x9b, 0x29,
        0x7b, 0xcf, 0x18, 0x85, 0xc5, 0x29, 0xf5, 0x66, 0x66, 0x0e, 0x57, 0xec, 0x68, 0xed,
        0xbc, 0x3c, 0x05, 0x72, 0x6c, 0xc0, 0x2f, 0xd4, 0xcb, 0xf4, 0x97, 0x6e, 0xaa, 0x9a,
        0xfd, 0x51, 0x38, 0xfe, 0x83, 0x76, 0x43, 0x5b, 0x9f, 0xc6, 0x1d, 0x2f, 0xc0, 0xeb,
        0x06, 0xe3,
    ];
    proof {
        assert(v@ =~= n_bytes_1024());
    }
    v
}

/// The 1536-bit safe prime of RFC 5054, as big-endian bytes.
pub open spec fn n_bytes_1536() -> Seq<u8> {
    seq![
        0x9du8, 0xef, 0x3c, 0xaf, 0xb9, 0x39, 0x27, 0x7a, 0xb1, 0xf1, 0x2a, 0x86, 0x17, 0xa4,
        0x7b, 0xbb, 0xdb, 0xa5, 0x1d, 0xf4, 0x99, 0xac, 0x4c, 0x80, 0xbe, 0xee, 0xa9, 0x61,
        0x4b, 0x19, 0xcc, 0x4d, 0x5f, 0x4f, 0x5f, 0x55, 0x6e, 0x27, 0xcb, 0xde, 0x51, 0xc6,
        0xa9, 0x4b, 0xe4, 0x60, 0x7a, 0x29, 0x15, 0x58, 0x90, 0x3b, 0xa0, 0xd0, 0xf8, 0x43,
        0x80, 0xb6, 0x55, 0xbb, 0x9a, 0x22, 0xe8, 0xdc, 0xdf, 0x02, 0x8a, 0x7c, 0xec, 0x67,
        0xf0, 0xd0, 0x81, 0x34, 0xb1, 0xc8, 0xb9, 0x79, 0x89, 0x14, 0x9b, 0x60, 0x9e, 0x0b,
        0xe3, 0xba, 0xb6, 0x3d, 0x47, 0x54, 0x83, 0x81, 0xdb, 0xc5, 0xb1, 0xfc, 0x76, 0x4e,
        0x3f, 0x4b, 0x53, 0xdd, 0x9d, 0xa1, 0x15, 0x8b, 0xfd, 0x3e, 0x2b, 0x9c, 0x8c, 0xf5,
        0x6e, 0xdf, 0x01, 0x95, 0x39, 0x34, 0x96, 0x27, 0xdb, 0x2f, 0xd5, 0x3d, 0x24, 0xb7,
        0xc4, 0x86, 0x65, 0x77, 0x2e, 0x43, 0x7d, 0x6c, 0x7f, 0x8c, 0xe4, 0x42, 0x73, 0x4a,
        0xf7, 0xcc, 0xb7, 0xae, 0x83, 0x7c, 0x26, 0x4a, 0xe3, 0xa9, 0xbe, 0xb8, 0x7f, 0x8a,
        0x2f, 0xe9, 0xb8, 0xb5, 0x29, 0x2e, 0x5a, 0x02, 0x1f, 0xff, 0x5e, 0x91, 0x47, 0x9e,
        0x8c, 0xe7, 0xa2, 0x8c, 0x24, 0x42, 0xc6, 0xf3, 0x15, 0x18, 0x0f, 0x93, 0x49, 0x9a,
        0x23, 0x4d, 0xcf, 0x76, 0xe3, 0xfe, 0xd1, 0x35, 0xf9, 0xbb,
    ]
}

fn n_vec_1536() -> (r: Vec<u8>)
    ensures
        r@ == n_bytes_1536(),
        r@.len() == 192,
{
    let v: Vec<u8> = vec![
        0x9du8, 0xef, 0x3c, 0xaf, 0xb9, 0x39, 0x27, 0x7a, 0xb1, 0xf1, 0x2a, 0x86, 0x17, 0xa4,
        0x7b, 0xbb, 0xdb, 0xa5, 0x1d, 0xf4, 0x99, 0xac, 0x4c, 0x80, 0xbe, 0xee, 0xa9, 0x61,
        0x4b, 0x19, 0xcc, 0x4d, 0x5f, 0x4f, 0x5f, 0x55, 0x6e, 0x27, 0xcb, 0xde, 0x51, 0xc6,
        0xa9, 0x4b, 0xe4, 0x60, 0x7a, 0x29, 0x15, 0x58, 0x90, 0x3b, 0xa0, 0xd0, 0xf8, 0x43,
        0x80, 0xb6, 0x55, 0xbb, 0x9a, 0x22, 0xe8, 0xdc, 0xdf, 0x02, 0x8a, 0x7c, 0xec, 0x67,
        0xf0, 0xd0, 0x81, 0x34, 0xb1, 0xc8, 0xb9, 0x79, 0x89, 0x14, 0x9b, 0x60, 0x9e, 0x0b,
        0xe3, 0xba, 0xb6, 0x3d, 0x47, 0x54, 0x83, 0x81, 0xdb, 0xc5, 0xb1, 0xfc, 0x76, 0x4e,
        0x3f, 0x4b, 0x53, 0xdd, 0x9d, 0xa1, 0x15, 0x8b, 0xfd, 0x3e, 0x2b, 0x9c, 0x8c, 0xf5,
        0x6e, 0xdf, 0x01, 0x95, 0x39, 0x34, 0x96, 0x27, 0xdb, 0x2f, 0xd5, 0x3d, 0x24, 0xb7,
        0xc4, 0x86, 0x65, 0x77, 0x2e, 0x43, 0x7d, 0x6c, 0x7f, 0x8c, 0xe4, 0x42, 0x73, 0x4a,
        0xf7, 0xcc, 0xb7, 0xae, 0x83, 0x7c, 0x26, 0x4a, 0xe3, 0xa9, 0xbe, 0xb8, 0x7f, 0x8a,
        0x2f, 0xe9, 0xb8, 0xb5, 0x29, 0x2e, 0x5a, 0x02, 0x1f, 0xff, 0x5e, 0x91, 0x47, 0x9e,
        0x8c, 0xe7, 0xa2, 0x8c, 0x24, 0x42, 0xc6, 0xf3, 0x15, 0x18, 0x0f, 0x93, 0x49, 0x9a,
        0x23, 0x4d, 0xcf, 0x76, 0xe3, 0xfe, 0xd1, 0x35, 0xf9, 0xbb,
    ];
    proof {
        assert(v@ =~= n_bytes_1536());
    }
    v
}

/// The 2048-bit safe prime of RFC 5054, as big-endian bytes.
pub open spec fn n_bytes_2048() -> Seq<u8> {
    seq![
        0xacu8, 0x6b, 0xdb, 0x41, 0x32, 0x4a, 0x9a, 0x9b, 0xf1, 0x66, 0xde, 0x5e, 0x13, 0x89,
        0x58, 0x2f, 0xaf, 0x72, 0xb6, 0x65, 0x19, 0x87, 0xee, 0x07, 0xfc, 0x31, 0x92, 0x94,
        0x3d, 0xb5, 0x60, 0x50, 0xa3, 0x73, 0x29, 0xcb, 0xb4, 0xa0, 0x99, 0xed, 0x81, 0x93,
        0xe0, 0x75, 0x77, 0x67, 0xa1, 0x3d, 0xd5, 0x23, 0x12, 0xab, 0x4b, 0x03, 0x31, 0x0d,
        0xcd, 0x7f, 0x48, 0xa9, 0xda, 0x04, 0xfd, 0x50, 0xe8, 0x08, 0x39, 0x69, 0xed, 0xb7,
        0x67, 0xb0, 0xcf, 0x60, 0x95, 0x17, 0x9a, 0x16, 0x3a, 0xb3, 0x66, 0x1a, 0x05, 0xfb,
        0xd5, 0xfa, 0xaa, 0xe8, 0x29, 0x18, 0xa9, 0x96, 0x2f, 0x0b, 0x93, 0xb8, 0x55, 0xf9,
        0x79, 0x93, 0xec, 0x97, 0x5e, 0xea, 0xa8, 0x0d, 0x74, 0x0a, 0xdb, 0xf4, 0xff, 0x74,
        0x73, 0x59, 0xd0, 0x41, 0xd5, 0xc3, 0x3e, 0xa7, 0x1d, 0x28, 0x1e, 0x44, 0x6b, 0x14,
        0x77, 0x3b, 0xca, 0x97, 0xb4, 0x3a, 0x23, 0xfb, 0x80, 0x16, 0x76, 0xbd, 0x20, 0x7a,
        0x43, 0x6c, 0x64, 0x81, 0xf1, 0xd2, 0xb9, 0x07, 0x87, 0x17, 0x46, 0x1a, 0x5b, 0x9d,
        0x32, 0xe6, 0x88, 0xf8, 0x77, 0x48, 0x54, 0x45, 0x23, 0xb5, 0x24, 0xb0, 0xd5, 0x7d,
        0x5e, 0xa7, 0x7a, 0x27, 0x75, 0xd2, 0xec, 0xfa, 0x03, 0x2c, 0xfb, 0xdb, 0xf5, 0x2f,
        0xb3, 0x78, 0x61, 0x60, 0x27, 0x90, 0x04, 0xe5, 0x7a, 0xe6, 0xaf, 0x87, 0x4e, 0x73,
        0x03, 0xce, 0x53, 0x29, 0x9c, 0xcc, 0x04, 0x1c, 0x7b, 0xc3, 0x08, 0xd8, 0x2a, 0x56,
        0x98, 0xf3, 0xa8, 0xd0, 0xc3, 0x82, 0x71, 0xae, 0x35, 0xf8, 0xe9, 0xdb, 0xfb, 0xb6,
        0x94, 0xb5, 0xc8, 0x03, 0xd8, 0x9f, 0x7a, 0xe4, 0x35, 0xde, 0x23, 0x6d, 0x52, 0x5f,
        0x54, 0x75, 0x9b, 0x65, 0xe3, 0x72, 0xfc, 0xd6, 0x8e, 0xf2, 0x0f, 0xa7, 0x11, 0x1f,
        0x9e, 0x4a, 0xff, 0x73,
    ]
}

fn n_vec_2048() -> (r: Vec<u8>)
    ensures
        r@ == n_bytes_2048(),
        r@.len() == 256,
{
    let v: Vec<u8> = vec![
        0xacu8, 0x6b, 0xdb, 0x41, 0x32, 0x4a, 0x9a, 0x9b, 0xf1, 0x66, 0xde, 0x5e, 0x13, 0x89,
        0x58, 0x2f, 0xaf, 0x72, 0xb6, 0x65, 0x19, 0x87, 0xee, 0x07, 0xfc, 0x31, 0x92, 0x94,
        0x3d, 0xb5, 0x60, 0x50, 0xa3, 0x73, 0x29, 0xcb, 0xb4, 0xa0, 0x99, 0xed, 0x81, 0x93,
        0xe0, 0x75, 0x77, 0x67, 0xa1, 0x3d, 0xd5, 0x23, 0x12, 0xab, 0x4b, 0x03, 0x31, 0x0d,
        0xcd, 0x7f, 0x48, 0xa9, 0xda, 0x04, 0xfd, 0x50, 0xe8, 0x08, 0x39, 0x69, 0xed, 0xb7,
        0x67, 0xb0, 0xcf, 0x60, 0x95, 0x17, 0x9a, 0x16, 0x3a, 0xb3, 0x66, 0x1a, 0x05, 0xfb,
        0xd5, 0xfa, 0xaa, 0xe8, 0x29, 0x18, 0xa9, 0x96, 0x2f, 0x0b, 0x93, 0xb8, 0x55, 0xf9,
        0x79, 0x93, 0xec, 0x97, 0x5e, 0xea, 0xa8, 0x0d, 0x74, 0x0a, 0xdb, 0xf4, 0xff, 0x74,
        0x73, 0x59, 0xd0, 0x41, 0xd5, 0xc3, 0x3e, 0xa7, 0x1d, 0x28, 0x1e, 0x44, 0x6b, 0x14,
        0x77, 0x3b, 0xca, 0x97, 0xb4, 0x3a, 0x23, 0xfb, 0x80, 0x16, 0x76, 0xbd, 0x20, 0x7a,
        0x43, 0x6c, 0x64, 0x81, 0xf1, 0xd2, 0xb9, 0x07, 0x87, 0x17, 0x46, 0x1a, 0x5b, 0x9d,
        0x32, 0xe6, 0x88, 0xf8, 0x77, 0x48, 0x54, 0x45, 0x23, 0xb5, 0x24, 0xb0, 0xd5, 0x7d,
        0x5e, 0xa7, 0x7a, 0x27, 0x75, 0xd2, 0xec, 0xfa, 0x03, 0x2c, 0xfb, 0xdb, 0xf5, 0x2f,
        0xb3, 0x78, 0x61, 0x60, 0x27, 0x90, 0x04, 0xe5, 0x7a, 0xe6, 0xaf, 0x87, 0x4e, 0x73,
        0x03, 0xce, 0x53, 0x29, 0x9c, 0xcc, 0x04, 0x1c, 0x7b, 0xc3, 0x08, 0xd8, 0x2a, 0x56,
        0x98, 0xf3, 0xa8, 0xd0, 0xc3, 0x82, 0x71, 0xae, 0x35, 0xf8, 0xe9, 0xdb, 0xfb, 0xb6,
        0x94, 0xb5, 0xc8, 0x03, 0xd8, 0x9f, 0x7a, 0xe4, 0x35, 0xde, 0x23, 0x6d, 0x52, 0x5f,
        0x54, 0x75, 0x9b, 0x65, 0xe3, 0x72, 0xfc, 0xd6, 0x8e, 0xf2, 0x0f, 0xa7, 0x11, 0x1f,
        0x9e, 0x4a, 0xff, 0x73,
    ];
    proof {
        assert(v@ =~= n_bytes_2048());
    }
    v
}

/// The 3072-bit safe prime of RFC 5054, as big-endian bytes.
pub open spec fn n_bytes_3072() -> Seq<u8> {
    seq![
        0xffu8, 0xff, 0xff, 0xff, 0xff, 0xff, 0xff, 0xff, 0xc9, 0x0f, 0xda, 0xa2, 0x21, 0x68,
        0xc2, 0x34, 0xc4, 0xc6, 0x62, 0x8b, 0x80, 0xdc, 0x1c, 0xd1, 0x29, 0x02, 0x4e, 0x08,
        0x8a, 0x67, 0xcc, 0x74, 0x02, 0x0b, 0xbe, 0xa6, 0x3b, 0x13, 0x9b, 0x22, 0x51, 0x4a,
        0x08, 0x79, 0x8e, 0x34, 0x04, 0xdd, 0xef, 0x95, 0x19, 0xb3, 0xcd, 0x3a, 0x43, 0x1b,
        0x30, 0x2b, 0x0a, 0x6d, 0xf2, 0x5f, 0x14, 0x37, 0x4f, 0xe1, 0x35, 0x6d, 0x6d, 0x51,
        0xc2, 0x45, 0xe4, 0x85, 0xb5, 0x76, 0x62, 0x5e, 0x7e, 0xc6, 0xf4, 0x4c, 0x42, 0xe9,
        0xa6, 0x37, 0xed, 0x6b, 0x0b, 0xff, 0x5c, 0xb6, 0xf4, 0x06, 0xb7, 0xed, 0xee, 0x38,
        0x6b, 0xfb, 0x5a, 0x89, 0x9f, 0xa5, 0xae, 0x9f, 0x24, 0x11, 0x7c, 0x4b, 0x1f, 0xe6,
        0x49, 0x28, 0x66, 0x51, 0xec, 0xe4, 0x5b, 0x3d, 0xc2, 0x00, 0x7c, 0xb8, 0xa1, 0x63,
        0xbf, 0x05, 0x98, 0xda, 0x48, 0x36, 0x1c, 0x55, 0xd3, 0x9a, 0x69, 0x16, 0x3f, 0xa8,
        0xfd, 0x24, 0xcf, 0x5f, 0x83, 0x65, 0x5d, 0x23, 0xdc, 0xa3, 0xad, 0x96, 0x1c, 0x62,
        0xf3, 0x56, 0x20, 0x85, 0x52, 0xbb, 0x9e, 0xd5, 0x29, 0x07, 0x70, 0x96, 0x96, 0x6d,
        0x67, 0x0c, 0x35, 0x4e, 0x4a, 0xbc, 0x98, 0x04, 0xf1, 0x74, 0x6c, 0x08, 0xca, 0x18,
        0x21, 0x7c, 0x32, 0x90, 0x5e, 0x46, 0x2e, 0x36, 0xce, 0x3b, 0xe3, 0x9e, 0x77, 0x2c,
        0x18, 0x0e, 0x86, 0x03, 0x9b, 0x27, 0x83, 0xa2, 0xec, 0x07, 0xa2, 0x8f, 0xb5, 0xc5,
        0x5d, 0xf0, 0x6f, 0x4c, 0x52, 0xc9, 0xde, 0x2b, 0xcb, 0xf6, 0x95, 0x58, 0x17, 0x18,
        0x39, 0x95, 0x49, 0x7c, 0xea, 0x95, 0x6a, 0xe5, 0x15, 0xd2, 0x26, 0x18, 0x98, 0xfa,
        0x05, 0x10, 0x15, 0x72, 0x8e, 0x5a, 0x8a, 0xaa, 0xc4, 0x2d, 0xad, 0x33, 0x17, 0x0d,
        0x04, 0x50, 0x7a, 0x33, 0xa8, 0x55, 0x21, 0xab, 0xdf, 0x1c, 0xba, 0x64, 0xec, 0xfb,
        0x85, 0x04, 0x58, 0xdb, 0xef, 0x0a, 0x8a, 0xea, 0x71, 0x57, 0x5d, 0x06, 0x0c, 0x7d,
        0xb3, 0x97, 0x0f, 0x85, 0xa6, 0xe1, 0xe4, 0xc7, 0xab, 0xf5, 0xae, 0x8c, 0xdb, 0x09,
        0x33, 0xd7, 0x1e, 0x8c, 0x94, 0xe0, 0x4a, 0x25, 0x61, 0x9d, 0xce, 0xe3, 0xd2, 0x26,
        0x1a, 0xd2, 0xee, 0x6b, 0xf1, 0x2f, 0xfa, 0x06, 0xd9, 0x8a, 0x08, 0x64, 0xd8, 0x76,
        0x02, 0x73, 0x3e, 0xc8, 0x6a, 0x64, 0x52, 0x1f, 0x2b, 0x18, 0x17, 0x7b, 0x20, 0x0c,
        0xbb, 0xe1, 0x17, 0x57, 0x7a, 0x61, 0x5d, 0x6c, 0x77, 0x09, 0x88, 0xc0, 0xba, 0xd9,
        0x46, 0xe2, 0x08, 0xe2, 0x4f, 0xa0, 0x74, 0xe5, 0xab, 0x31, 0x43, 0xdb, 0x5b, 0xfc,
        0xe0, 0xfd, 0x10, 0x8e, 0x4b, 0x82, 0xd1, 0x20, 0xa9, 0x3a, 0xd2, 0xca, 0xff, 0xff,
        0xff, 0xff, 0xff, 0xff, 0xff, 0xff,
    ]
}

fn n_vec_3072() -> (r: Vec<u8>)
    ensures
        r@ == n_bytes_3072(),
        r@.len() == 384,
{
    let v: Vec<u8> = vec![
        0xffu8, 0xff, 0xff, 0xff, 0xff, 0xff, 0xff, 0xff, 0xc9, 0x0f, 0xda, 0xa2, 0x21, 0x68,
        0xc2, 0x34, 0xc4, 0xc6, 0x62, 0x8b, 0x80, 0xdc, 0x1c, 0xd1, 0x29, 0x02, 0x4e, 0x08,
        0x8a, 0x67, 0xcc, 0x74, 0x02, 0x0b, 0xbe, 0xa6, 0x3b, 0x13, 0x9b, 0x22, 0x51, 0x4a,
        0x08, 0x79, 0x8e, 0x34, 0x04, 0xdd, 0xef, 0x95, 0x19, 0xb3, 0xcd, 0x3a, 0x43, 0x1b,
        0x30, 0x2b, 0x0a, 0x6d, 0xf2, 0x5f, 0x14, 0x37, 0x4f, 0xe1, 0x35, 0x6d, 0x6d, 0x51,
        0xc2, 0x45, 0xe4, 0x85, 0xb5, 0x76, 0x62, 0x5e, 0x7e, 0xc6, 0xf4, 0x4c, 0x42, 0xe9,
        0xa6, 0x37, 0xed, 0x6b, 0x0b, 0xff, 0x5c, 0xb6, 0xf4, 0x06, 0xb7, 0xed, 0xee, 0x38,
        0x6b, 0xfb, 0x5a, 0x89, 0x9f, 0xa5, 0xae, 0x9f, 0x24, 0x11, 0x7c, 0x4b, 0x1f, 0xe6,
        0x49, 0x28, 0x66, 0x51, 0xec, 0xe4, 0x5b, 0x3d, 0xc2, 0x00, 0x7c, 0xb8, 0xa1, 0x63,
        0xbf, 0x05, 0x98, 0xda, 0x48, 0x36, 0x1c, 0x55, 0xd3, 0x9a, 0x69, 0x16, 0x3f, 0xa8,
        0xfd, 0x24, 0xcf, 0x5f, 0x83, 0x65, 0x5d, 0x23, 0xdc, 0xa3, 0xad, 0x96, 0x1c, 0x62,
        0xf3, 0x56, 0x20, 0x85, 0x52, 0xbb, 0x9e, 0xd5, 0x29, 0x07, 0x70, 0x96, 0x96, 0x6d,
        0x67, 0x0c, 0x35, 0x4e, 0x4a, 0xbc, 0x98, 0x04, 0xf1, 0x74, 0x6c, 0x08, 0xca, 0x18,
        0x21, 0x7c, 0x32, 0x90, 0x5e, 0x46, 0x2e, 0x36, 0xce, 0x3b, 0xe3, 0x9e, 0x77, 0x2c,
        0x18, 0x0e, 0x86, 0x03, 0x9b, 0x27, 0x83, 0xa2, 0xec, 0x07, 0xa2, 0x8f, 0xb5, 0xc5,
        0x5d, 0xf0, 0x6f, 0x4c, 0x52, 0xc9, 0xde, 0x2b, 0xcb, 0xf6, 0x95, 0x58, 0x17, 0x18,
        0x39, 0x95, 0x49, 0x7c, 0xea, 0x95, 0x6a, 0xe5, 0x15, 0xd2, 0x26, 0x18, 0x98, 0xfa,
        0x05, 0x10, 0x15, 0x72, 0x8e, 0x5a, 0x8a, 0xaa, 0xc4, 0x2d, 0xad, 0x33, 0x17, 0x0d,
        0x04, 0x50, 0x7a, 0x33, 0xa8, 0x55, 0x21, 0xab, 0xdf, 0x1c, 0xba, 0x64, 0xec, 0xfb,
        0x85, 0x04, 0x58, 0xdb, 0xef, 0x0a, 0x8a, 0xea, 0x71, 0x57, 0x5d, 0x06, 0x0c, 0x7d,
        0xb3, 0x97, 0x0f, 0x85, 0xa6, 0xe1, 0xe4, 0xc7, 0xab, 0xf5, 0xae, 0x8c, 0xdb, 0x09,
        0x33, 0xd7, 0x1e, 0x8c, 0x94, 0xe0, 0x4a, 0x25, 0x61, 0x9d, 0xce, 0xe3, 0xd2, 0x26,
        0x1a, 0xd2, 0xee, 0x6b, 0xf1, 0x2f, 0xfa, 0x06, 0xd9, 0x8a, 0x08, 0x64, 0xd8, 0x76,
        0x02, 0x73, 0x3e, 0xc8, 0x6a, 0x64, 0x52, 0x1f, 0x2b, 0x18, 0x17, 0x7b, 0x20, 0x0c,
        0xbb, 0xe1, 0x17, 0x57, 0x7a, 0x61, 0x5d, 0x6c, 0x77, 0x09, 0x88, 0xc0, 0xba, 0xd9,
        0x46, 0xe2, 0x08, 0xe2, 0x4f, 0xa0, 0x74, 0xe5, 0xab, 0x31, 0x43, 0xdb, 0x5b, 0xfc,
        0xe0, 0xfd, 0x10, 0x8e, 0x4b, 0x82, 0xd1, 0x20, 0xa9, 0x3a, 0xd2, 0xca, 0xff, 0xff,
        0xff, 0xff, 0xff, 0xff, 0xff, 0xff,
    ];
    proof {
        assert(v@ =~= n_bytes_3072());
    }
    v
}

/// The 4096-bit safe prime of RFC 5054, as big-endian bytes.
pub open spec fn n_bytes_4096() -> Seq<u8> {
    seq![
        0xffu8, 0xff, 0xff, 0xff, 0xff, 0xff, 0xff, 0xff, 0xc9, 0x0f, 0xda, 0xa2, 0x21, 0x68,
        0xc2, 0x34, 0xc4, 0xc6, 0x62, 0x8b, 0x80, 0xdc, 0x1c, 0xd1, 0x29, 0x02, 0x4e, 0x08,
        0x8a, 0x67, 0xcc, 0x74, 0x02, 0x0b, 0xbe, 0xa6, 0x3b, 0x13, 0x9b, 0x22, 0x51, 0x4a,
        0x08, 0x79, 0x8e, 0x34, 0x04, 0xdd, 0xef, 0x95, 0x19, 0xb3, 0xcd, 0x3a, 0x43, 0x1b,
        0x30, 0x2b, 0x0a, 0x6d, 0xf2, 0x5f, 0x14, 0x37, 0x4f, 0xe1, 0x35, 0x6d, 0x6d, 0x51,
        0xc2, 0x45, 0xe4, 0x85, 0xb5, 0x76, 0x62, 0x5e, 0x7e, 0xc6, 0xf4, 0x4c, 0x42, 0xe9,
        0xa6, 0x37, 0xed, 0x6b, 0x0b, 0xff, 0x5c, 0xb6, 0xf4, 0x06, 0xb7, 0xed, 0xee, 0x38,
        0x6b, 0xfb, 0x5a, 0x89, 0x9f, 0xa5, 0xae, 0x9f, 0x24, 0x11, 0x7c, 0x4b, 0x1f, 0xe6,
        0x49, 0x28, 0x66, 0x51, 0xec, 0xe4, 0x5b, 0x3d, 0xc2, 0x00, 0x7c, 0xb8, 0xa1, 0x63,
        0xbf, 0x05, 0x98, 0xda, 0x48, 0x36, 0x1c, 0x55, 0xd3, 0x9a, 0x69, 0x16, 0x3f, 0xa8,
        0xfd, 0x24, 0xcf, 0x5f, 0x83, 0x65, 0x5d, 0x23, 0xdc, 0xa3, 0xad, 0x96, 0x1c, 0x62,
        0xf3, 0x56, 0x20, 0x85, 0x52, 0xbb, 0x9e, 0xd5, 0x29, 0x07, 0x70, 0x96, 0x96, 0x6d,
        0x67, 0x0c, 0x35, 0x4e, 0x4a, 0xbc, 0x98, 0x04, 0xf1, 0x74, 0x6c, 0x08, 0xca, 0x18,
        0x21, 0x7c, 0x32, 0x90, 0x5e, 0x46, 0x2e, 0x36, 0xce, 0x3b, 0xe3, 0x9e, 0x77, 0x2c,
        0x18, 0x0e, 0x86, 0x03, 0x9b, 0x27, 0x83, 0xa2, 0xec, 0x07, 0xa2, 0x8f, 0xb5, 0xc5,
        0x5d, 0xf0, 0x6f, 0x4c, 0x52, 0xc9, 0xde, 0x2b, 0xcb, 0xf6, 0x95, 0x58, 0x17, 0x18,
        0x39, 0x95, 0x49, 0x7c, 0xea, 0x95, 0x6a, 0xe5, 0x15, 0xd2, 0x26, 0x18, 0x98, 0xfa,
        0x05, 0x10, 0x15, 0x72, 0x8e, 0x5a, 0x8a, 0xaa, 0xc4, 0x2d, 0xad, 0x33, 0x17, 0x0d,
        0x04, 0x50, 0x7a, 0x33, 0xa8, 0x55, 0x21, 0xab, 0xdf, 0x1c, 0xba, 0x64, 0xec, 0xfb,
        0x85, 0x04, 0x58, 0xdb, 0xef, 0x0a, 0x8a, 0xea, 0x71, 0x57, 0x5d, 0x06, 0x0c, 0x7d,
        0xb3, 0x97, 0x0f, 0x85, 0xa6, 0xe1, 0xe4, 0xc7, 0xab, 0xf5, 0xae, 0x8c, 0xdb, 0x09,
        0x33, 0xd7, 0x1e, 0x8c, 0x94, 0xe0, 0x4a, 0x25, 0x61, 0x9d, 0xce, 0xe3, 0xd2, 0x26,
        0x1a, 0xd2, 0xee, 0x6b, 0xf1, 0x2f, 0xfa, 0x06, 0xd9, 0x8a, 0x08, 0x64, 0xd8, 0x76,
        0x02, 0x73, 0x3e, 0xc8, 0x6a, 0x64, 0x52, 0x1f, 0x2b, 0x18, 0x17, 0x7b, 0x20, 0x0c,
        0xbb, 0xe1, 0x17, 0x57, 0x7a, 0x61, 0x5d, 0x6c, 0x77, 0x09, 0x88, 0xc0, 0xba, 0xd9,
        0x46, 0xe2, 0x08, 0xe2, 0x4f, 0xa0, 0x74, 0xe5, 0xab, 0x31, 0x43, 0xdb, 0x5b, 0xfc,
        0xe0, 0xfd, 0x10, 0x8e, 0x4b, 0x82, 0xd1, 0x20, 0xa9, 0x21, 0x08, 0x01, 0x1a, 0x72,
        0x3c, 0x12, 0xa7, 0x87, 0xe6, 0xd7, 0x88, 0x71, 0x9a, 0x10, 0xbd, 0xba, 0x5b, 0x26,
        0x99, 0xc3, 0x27, 0x18, 0x6a, 0xf4, 0xe2, 0x3c, 0x1a, 0x94, 0x68, 0x34, 0xb6, 0x15,
        0x0b, 0xda, 0x25, 0x83, 0xe9, 0xca, 0x2a, 0xd4, 0x4c, 0xe8, 0xdb, 0xbb, 0xc2, 0xdb,
        0x04, 0xde, 0x8e, 0xf9, 0x2e, 0x8e, 0xfc, 0x14, 0x1f, 0xbe, 0xca, 0xa6, 0x28, 0x7c,
        0x59, 0x47, 0x4e, 0x6b, 0xc0, 0x5d, 0x99, 0xb2, 0x96, 0x4f, 0xa0, 0x90, 0xc3, 0xa2,
        0x23, 0x3b, 0xa1, 0x86, 0x51, 0x5b, 0xe7, 0xed, 0x1f, 0x61, 0x29, 0x70, 0xce, 0xe2,
        0xd7, 0xaf, 0xb8, 0x1b, 0xdd, 0x76, 0x21, 0x70, 0x48, 0x1c, 0xd0, 0x06, 0x91, 0x27,
        0xd5, 0xb0, 0x5a, 0xa9, 0x93, 0xb4, 0xea, 0x98, 0x8d, 0x8f, 0xdd, 0xc1, 0x86, 0xff,
        0xb7, 0xdc, 0x90, 0xa6, 0xc0, 0x8f, 0x4d, 0xf4, 0x35, 0xc9, 0x34, 0x06, 0x31, 0x99,
        0xff, 0xff, 0xff, 0xff, 0xff, 0xff, 0xff, 0xff,
    ]
}

fn n_vec_4096() -> (r: Vec<u8>)
    ensures
        r@ == n_bytes_4096(),
        r@.len() == 512,
{
    let v: Vec<u8> = vec![
        0xffu8, 0xff, 0xff, 0xff, 0xff, 0xff, 0xff, 0xff, 0xc9, 0x0f, 0xda, 0xa2, 0x21, 0x68,
        0xc2, 0x34, 0xc4, 0xc6, 0x62, 0x8b, 0x80, 0xdc, 0x1c, 0xd1, 0x29, 0x02, 0x4e, 0x08,
        0x8a, 0x67, 0xcc, 0x74, 0x02, 0x0b, 0xbe, 0xa6, 0x3b, 0x13, 0x9b, 0x22, 0x51, 0x4a,
        0x08, 0x79, 0x8e, 0x34, 0x04, 0xdd, 0xef, 0x95, 0x19, 0xb3, 0xcd, 0x3a, 0x43, 0x1b,
        0x30, 0x2b, 0x0a, 0x6d, 0xf2, 0x5f, 0x14, 0x37, 0x4f, 0xe1, 0x35, 0x6d, 0x6d, 0x51,
        0xc2, 0x45, 0xe4, 0x85, 0xb5, 0x76, 0x62, 0x5e, 0x7e, 0xc6, 0xf4, 0x4c, 0x42, 0xe9,
        0xa6, 0x37, 0xed, 0x6b, 0x0b, 0xff, 0x5c, 0xb6, 0xf4, 0x06, 0xb7, 0xed, 0xee, 0x38,
        0x6b, 0xfb, 0x5a, 0x89, 0x9f, 0xa5, 0xae, 0x9f, 0x24, 0x11, 0x7c, 0x4b, 0x1f, 0xe6,
        0x49, 0x28, 0x66, 0x51, 0xec, 0xe4, 0x5b, 0x3d, 0xc2, 0x00, 0x7c, 0xb8, 0xa1, 0x63,
        0xbf, 0x05, 0x98, 0xda, 0x48, 0x36, 0x1c, 0x55, 0xd3, 0x9a, 0x69, 0x16, 0x3f, 0xa8,
        0xfd, 0x24, 0xcf, 0x5f, 0x83, 0x65, 0x5d, 0x23, 0xdc, 0xa3, 0xad, 0x96, 0x1c, 0x62,
        0xf3, 0x56, 0x20, 0x85, 0x52, 0xbb, 0x9e, 0xd5, 0x29, 0x07, 0x70, 0x96, 0x96, 0x6d,
        0x67, 0x0c, 0x35, 0x4e, 0x4a, 0xbc, 0x98, 0x04, 0xf1, 0x74, 0x6c, 0x08, 0xca, 0x18,
        0x21, 0x7c, 0x32, 0x90, 0x5e, 0x46, 0x2e, 0x36, 0xce, 0x3b, 0xe3, 0x9e, 0x77, 0x2c,
        0x18, 0x0e, 0x86, 0x03, 0x9b, 0x27, 0x83, 0xa2, 0xec, 0x07, 0xa2, 0x8f, 0xb5, 0xc5,
        0x5d, 0xf0, 0x6f, 0x4c, 0x52, 0xc9, 0xde, 0x2b, 0xcb, 0xf6, 0x95, 0x58, 0x17, 0x18,
        0x39, 0x95, 0x49, 0x7c, 0xea, 0x95, 0x6a, 0xe5, 0x15, 0xd2, 0x26, 0x18, 0x98, 0xfa,
        0x05, 0x10, 0x15, 0x72, 0x8e, 0x5a, 0x8a, 0xaa, 0xc4, 0x2d, 0xad, 0x33, 0x17, 0x0d,
        0x04, 0x50, 0x7a, 0x33, 0xa8, 0x55, 0x21, 0xab, 0xdf, 0x1c, 0xba, 0x64, 0xec, 0xfb,
        0x85, 0x04, 0x58, 0xdb, 0xef, 0x0a, 0x8a, 0xea, 0x71, 0x57, 0x5d, 0x06, 0x0c, 0x7d,
        0xb3, 0x97, 0x0f, 0x85, 0xa6, 0xe1, 0xe4, 0xc7, 0xab, 0xf5, 0xae, 0x8c, 0xdb, 0x09,
        0x33, 0xd7, 0x1e, 0x8c, 0x94, 0xe0, 0x4a, 0x25, 0x61, 0x9d, 0xce, 0xe3, 0xd2, 0x26,
        0x1a, 0xd2, 0xee, 0x6b, 0xf1, 0x2f, 0xfa, 0x06, 0xd9, 0x8a, 0x08, 0x64, 0xd8, 0x76,
        0x02, 0x73, 0x3e, 0xc8, 0x6a, 0x64, 0x52, 0x1f, 0x2b, 0x18, 0x17, 0x7b, 0x20, 0x0c,
        0xbb, 0xe1, 0x17, 0x57, 0x7a, 0x61, 0x5d, 0x6c, 0x77, 0x09, 0x88, 0xc0, 0xba, 0xd9,
        0x46, 0xe2, 0x08, 0xe2, 0x4f, 0xa0, 0x74, 0xe5, 0xab, 0x31, 0x43, 0xdb, 0x5b, 0xfc,
        0xe0, 0xfd, 0x10, 0x8e, 0x4b, 0x82, 0xd1, 0x20, 0xa9, 0x21, 0x08, 0x01, 0x1a, 0x72,
        0x3c, 0x12, 0xa7, 0x87, 0xe6, 0xd7, 0x88, 0x71, 0x9a, 0x10, 0xbd, 0xba, 0x5b, 0x26,
        0x99, 0xc3, 0x27, 0x18, 0x6a, 0xf4, 0xe2, 0x3c, 0x1a, 0x94, 0x68, 0x34, 0xb6, 0x15,
        0x0b, 0xda, 0x25, 0x83, 0xe9, 0xca, 0x2a, 0xd4, 0x4c, 0xe8, 0xdb, 0xbb, 0xc2, 0xdb,
        0x04, 0xde, 0x8e, 0xf9, 0x2e, 0x8e, 0xfc, 0x14, 0x1f, 0xbe, 0xca, 0xa6, 0x28, 0x7c,
        0x59, 0x47, 0x4e, 0x6b, 0xc0, 0x5d, 0x99, 0xb2, 0x96, 0x4f, 0xa0, 0x90, 0xc3, 0xa2,
        0x23, 0x3b, 0xa1, 0x86, 0x51, 0x5b, 0xe7, 0xed, 0x1f, 0x61, 0x29, 0x70, 0xce, 0xe2,
        0xd7, 0xaf, 0xb8, 0x1b, 0xdd, 0x76, 0x21, 0x70, 0x48, 0x1c, 0xd0, 0x06, 0x91, 0x27,
        0xd5, 0xb0, 0x5a, 0xa9, 0x93, 0xb4, 0xea, 0x98, 0x8d, 0x8f, 0xdd, 0xc1, 0x86, 0xff,
        0xb7, 0xdc, 0x90, 0xa6, 0xc0, 0x8f, 0x4d, 0xf4, 0x35, 0xc9, 0x34, 0x06, 0x31, 0x99,
        0xff, 0xff, 0xff, 0xff, 0xff, 0xff, 0xff, 0xff,
    ];
    proof {
        assert(v@ =~= n_bytes_4096());
    }
    v
}

/// The prime of a group, as bytes.
pub open spec fn group_n_bytes(group: SrpGroup) -> Seq<u8> {
    match group {
        SrpGroup::Rfc5054Group1024 => n_bytes_1024(),
        SrpGroup::Rfc5054Group1536 => n_bytes_1536(),
        SrpGroup::Rfc5054Group2048 => n_bytes_2048(),
        SrpGroup::Rfc5054Group3072 => n_bytes_3072(),
        SrpGroup::Rfc5054Group4096 => n_bytes_4096(),
    }
}

/// The prime of a group, as an integer.
pub open spec fn group_n_val(group: SrpGroup) -> int {
    bytes_value(group_n_bytes(group))
}

/// The hex width every public value of the group carries.
pub open spec fn group_width(group: SrpGroup) -> nat {
    match group {
        SrpGroup::Rfc5054Group1024 => 256,
        SrpGroup::Rfc5054Group1536 => 384,
        SrpGroup::Rfc5054Group2048 => 512,
        SrpGroup::Rfc5054Group3072 => 768,
        SrpGroup::Rfc5054Group4096 => 1024,
    }
}

/// The generator of a group.
pub open spec fn group_g_val(group: SrpGroup) -> int {
    match group {
        SrpGroup::Rfc5054Group1024 => 2,
        SrpGroup::Rfc5054Group1536 => 2,
        SrpGroup::Rfc5054Group2048 => 2,
        SrpGroup::Rfc5054Group3072 => 5,
        SrpGroup::Rfc5054Group4096 => 5,
    }
}

/// The multiplier parameter `k = H(N, g)` of a group.
pub open spec fn group_k_val(group: SrpGroup) -> int {
    hash_ints(seq![(group_n_val(group), group_width(group)), (group_g_val(group), 2nat)])
}

/// `H(N) XOR H(g)` of a group, as it enters the client proof.
pub open spec fn group_hxor_val(group: SrpGroup) -> int {
    xor_val(
        hash_ints(seq![(group_n_val(group), group_width(group))]),
        64,
        hash_ints(seq![(group_g_val(group), 2nat)]),
        64,
    )
}

/// Every group's prime exceeds one, so it can serve as a modulus.
pub proof fn lemma_group_n_above_one(group: SrpGroup)
    ensures
        group_n_val(group) > 1,
{
    assert(n_bytes_1024().len() == 128);
    assert(n_bytes_1536().len() == 192);
    assert(n_bytes_2048().len() == 256);
    assert(n_bytes_3072().len() == 384);
    assert(n_bytes_4096().len() == 512);
    assert(n_bytes_1024().last() == 0xe3u8);
    assert(n_bytes_1536().last() == 0xbbu8);
    assert(n_bytes_2048().last() == 0x73u8);
    assert(n_bytes_3072().last() == 0xffu8);
    assert(n_bytes_4096().last() == 0xffu8);
    crate::numrep::lemma_bytes_value_at_least_last(group_n_bytes(group));
}

/// `(N, g, k)` for a group: the prime at the group's width, the generator
/// at width 2, and `k = H(N, g)` at width 64.
pub fn get_group_params(group: SrpGroup) -> (r: (SrpInteger, SrpInteger, SrpInteger))
    ensures
        r.0.val() == group_n_val(group),
        r.0.val() > 1,
        r.0.width() == Some(group_width(group) as usize),
        r.0.hashable(),
        r.1.val() == group_g_val(group),
        r.1.val() >= 0,
        r.1.width() == Some(2usize),
        r.1.hashable(),
        r.2.val() == group_k_val(group),
        r.2.val() >= 0,
        r.2.width() == Some(64usize),
        r.2.hashable(),
{
    let nv = match group {
        SrpGroup::Rfc5054Group1024 => n_vec_1024(),
        SrpGroup::Rfc5054Group1536 => n_vec_1536(),
        SrpGroup::Rfc5054Group2048 => n_vec_2048(),
        SrpGroup::Rfc5054Group3072 => n_vec_3072(),
        SrpGroup::Rfc5054Group4096 => n_vec_4096(),
    };
    let gb: Vec<u8> = match group {
        SrpGroup::Rfc5054Group3072 => vec![0x05u8],
        SrpGroup::Rfc5054Group4096 => vec![0x05u8],
        _ => vec![0x02u8],
    };
    let n = SrpInteger::from_bytes(nv.as_slice());
    let g = SrpInteger::from_bytes(gb.as_slice());
    proof {
        crate::numrep::lemma_bytes_value_at_least_last(nv@);
        assert(n_bytes_1024().last() == 0xe3u8);
        assert(n_bytes_1536().last() == 0xbbu8);
        assert(n_bytes_2048().last() == 0x73u8);
        assert(n_bytes_3072().last() == 0xffu8);
        assert(n_bytes_4096().last() == 0xffu8);
        assert(bytes_value(nv@) > 1);
        assert(gb@ =~= seq![if group_g_val(group) == 5 { 0x05u8 } else { 0x02u8 }]);
        assert(bytes_value(gb@.drop_last()) == 0);
        assert(bytes_value(gb@) == group_g_val(group));
    }
    let k_args = [&n, &g];
    proof {
        assert(k_args@ =~= seq![&n, &g]);
    }
    let k = H(k_args.as_slice());
    proof {
        let m = k_args@.map_values(|x: &SrpInteger| (x.val(), x.width_nat()));
        assert(m =~= seq![(group_n_val(group), group_width(group)), (group_g_val(group), 2nat)]);
        assert(k.val() == hash_ints(m));
    }
    (n, g, k)
}

/// `H(N) XOR H(g)` for a group, width 64.
#[allow(nonstandard_style)]
pub fn get_h_N_xor_h_g(group: SrpGroup) -> (r: SrpInteger)
    ensures
        r.val() == group_hxor_val(group),
        r.val() >= 0,
        r.width() == Some(64usize),
        r.hashable(),
{
    let (n, g, _) = get_group_params(group);
    let n_args = [&n];
    let g_args = [&g];
    let h_n = H(n_args.as_slice());
    let h_g = H(g_args.as_slice());
    proof {
        let mn = n_args@.map_values(|x: &SrpInteger| (x.val(), x.width_nat()));
        assert(n_args@ =~= seq![&n]);
        assert(mn =~= seq![(group_n_val(group), group_width(group))]);
        let mg = g_args@.map_values(|x: &SrpInteger| (x.val(), x.width_nat()));
        assert(g_args@ =~= seq![&g]);
        assert(mg =~= seq![(group_g_val(group), 2nat)]);
        assert(h_n.val() == hash_ints(seq![(group_n_val(group), group_width(group))]));
        assert(h_g.val() == hash_ints(seq![(group_g_val(group), 2nat)]));
        assert(h_n.width_nat() == 64 && h_g.width_nat() == 64);
    }
    h_n.xor(&h_g)
}

} // verus!
