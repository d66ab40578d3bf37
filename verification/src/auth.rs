//! Control-plane authentication: proof of possession of a pre-shared key (the
//! "token") that also binds the ephemeral X25519 keys of the handshake.
//!
//!   * The token is a shared secret and is never put on the wire. The client
//!     proves possession by sending `HMAC-SHA256(token, transcript)`.
//!   * The client transcript covers `version | mode | name | size | client_pub`,
//!     so the client's ephemeral public key cannot be swapped without the token.
//!   * The server replies with `HMAC-SHA256(token, session | server_pub |
//!     client_mac)`, authenticating itself and binding its own ephemeral key and
//!     the session id.

use hmac::Mac;
use vstd::prelude::*;
use vstd::utf8::encode_utf8;

verus! {

/// The HMAC-SHA256 of a message under a key.
pub uninterp spec fn hmac_sha256(key: Seq<u8>, message: Seq<u8>) -> Seq<u8>;

/// Computes a tag with `hmac::Hmac::<Sha256>`: `new_from_slice` takes a key of
/// any length, `update` feeds the message, `finalize` gives 32 bytes.
#[verifier::external_body]
fn hmac_sha256_tag(key: &[u8], message: &[u8]) -> (r: Vec<u8>)
    ensures
        r@ == hmac_sha256(key@, message@),
        r@.len() == 32,
{
    let mut m = hmac::Hmac::<sha2::Sha256>::new_from_slice(key).expect("any key length");
    m.update(message);
    m.finalize().into_bytes().to_vec()
}

/// Checks a tag with `hmac::Hmac::<Sha256>` by `verify_slice`, which compares in
/// constant time and accepts the whole tag only.
#[verifier::external_body]
fn hmac_sha256_check(key: &[u8], message: &[u8], tag: &[u8]) -> (r: bool)
    ensures
        r == (tag@ == hmac_sha256(key@, message@)),
{
    let mut m = hmac::Hmac::<sha2::Sha256>::new_from_slice(key).expect("any key length");
    m.update(message);
    m.verify_slice(tag).is_ok()
}

/// What the client's proof covers.
pub open spec fn client_transcript(
    version: i64,
    mode: Seq<char>,
    name: Seq<char>,
    size: i64,
    client_pub: Seq<u8>,
) -> Seq<u8> {
    encode_utf8("girth-auth-client-v1"@) + crate::bytes::le64(crate::bytes::bits_of_i64(version))
        + encode_utf8(mode) + seq![0u8] + encode_utf8(name) + seq![0u8] + crate::bytes::le64(
        crate::bytes::bits_of_i64(size),
    ) + client_pub
}

/// What the server's proof covers.
pub open spec fn server_transcript(
    session: u32,
    server_pub: Seq<u8>,
    client_mac: Seq<u8>,
) -> Seq<u8> {
    encode_utf8("girth-auth-server-v1"@) + crate::bytes::le32(session) + server_pub + client_mac
}

/// The client's proof.
pub open spec fn client_mac_of(
    token: Seq<u8>,
    version: i64,
    mode: Seq<char>,
    name: Seq<char>,
    size: i64,
    client_pub: Seq<u8>,
) -> Seq<u8> {
    hmac_sha256(token, client_transcript(version, mode, name, size, client_pub))
}

/// The server's proof.
pub open spec fn server_mac_of(
    token: Seq<u8>,
    session: u32,
    server_pub: Seq<u8>,
    client_mac: Seq<u8>,
) -> Seq<u8> {
    hmac_sha256(token, server_transcript(session, server_pub, client_mac))
}

fn write_client_transcript(
    version: i64,
    mode: &str,
    name: &str,
    size: i64,
    client_pub: &[u8],
) -> (r: Vec<u8>)
    ensures
        r@ == client_transcript(version, mode@, name@, size, client_pub@),
{
    let mut t: Vec<u8> = Vec::new();
    t.extend_from_slice("girth-auth-client-v1".as_bytes());
    t.extend_from_slice(crate::bytes::u64_bytes(version as u64).as_slice());
    t.extend_from_slice(mode.as_bytes());
    t.push(0);
    t.extend_from_slice(name.as_bytes());
    t.push(0);
    t.extend_from_slice(crate::bytes::u64_bytes(size as u64).as_slice());
    t.extend_from_slice(client_pub);
    assert(t@ =~= client_transcript(version, mode@, name@, size, client_pub@));
    t
}

fn write_server_transcript(session: u32, server_pub: &[u8], client_mac: &[u8]) -> (r: Vec<u8>)
    ensures
        r@ == server_transcript(session, server_pub@, client_mac@),
{
    let mut t: Vec<u8> = Vec::new();
    t.extend_from_slice("girth-auth-server-v1".as_bytes());
    t.extend_from_slice(crate::bytes::u32_bytes(session).as_slice());
    t.extend_from_slice(server_pub);
    t.extend_from_slice(client_mac);
    assert(t@ =~= server_transcript(session, server_pub@, client_mac@));
    t
}

/// The client's proof of possession, binding the request fields and the client's
/// ephemeral public key (empty when not encrypting).
pub fn client_mac(
    token: &[u8],
    version: i64,
    mode: &str,
    name: &str,
    size: i64,
    client_pub: &[u8],
) -> (r: Vec<u8>)
    ensures
        r@ == client_mac_of(token@, version, mode@, name@, size, client_pub@),
        r@.len() == 32,
{
    let t = write_client_transcript(version, mode, name, size, client_pub);
    hmac_sha256_tag(token, t.as_slice())
}

/// The server's reply MAC, authenticating the server and binding the negotiated
/// session id, the server's ephemeral public key, and the client's proof.
pub fn server_mac(token: &[u8], session: u32, server_pub: &[u8], client_mac: &[u8]) -> (r: Vec<u8>)
    ensures
        r@ == server_mac_of(token@, session, server_pub@, client_mac@),
        r@.len() == 32,
{
    let t = write_server_transcript(session, server_pub, client_mac);
    hmac_sha256_tag(token, t.as_slice())
}

/// Constant-time verification of a client's proof against the expected inputs.
/// Returns true on a match.
pub fn verify_client_mac(
    token: &[u8],
    version: i64,
    mode: &str,
    name: &str,
    size: i64,
    client_pub: &[u8],
    presented: &[u8],
) -> (r: bool)
    ensures
        r == (presented@ == client_mac_of(token@, version, mode@, name@, size, client_pub@)),
{
    let t = write_client_transcript(version, mode, name, size, client_pub);
    hmac_sha256_check(token, t.as_slice(), presented)
}

/// Constant-time verification of the server's reply MAC.
pub fn verify_server_mac(
    token: &[u8],
    session: u32,
    server_pub: &[u8],
    client_mac: &[u8],
    presented: &[u8],
) -> (r: bool)
    ensures
        r == (presented@ == server_mac_of(token@, session, server_pub@, client_mac@)),
{
    let t = write_server_transcript(session, server_pub, client_mac);
    hmac_sha256_check(token, t.as_slice(), presented)
}

// --- laws -------------------------------------------------------------------

/// Whether no byte is zero.
pub open spec fn no_zero(s: Seq<u8>) -> bool {
    forall|i: int| 0 <= i < s.len() ==> #[trigger] s[i] != 0
}

/// A text without NUL characters is encoded without zero bytes.
proof fn text_without_nul_has_no_zero(chars: Seq<char>)
    requires
        !chars.contains('\0'),
    ensures
        no_zero(encode_utf8(chars)),
    decreases chars.len(),
{
    if chars.len() > 0 {
        let c = chars[0] as u32;
        assert(chars[0] != '\0');
        vstd::utf8::char_is_scalar(chars[0]);
        vstd::utf8::char_u32_cast(chars[0], c);
        assert(c != 0);
        assert(!chars.drop_first().contains('\0')) by {
            if chars.drop_first().contains('\0') {
                let i = choose|i: int|
                    0 <= i < chars.len() - 1 && chars.drop_first()[i] == '\0';
                assert(chars[i + 1] == '\0');
            }
        }
        text_without_nul_has_no_zero(chars.drop_first());
        assert(c <= 0x7f && c != 0 ==> (c & 0x7F) as u8 != 0) by (bit_vector);
        assert((0xC0u8 | ((c >> 6) & 0x1F) as u8) != 0) by (bit_vector);
        assert((0xE0u8 | ((c >> 12) & 0x0F) as u8) != 0) by (bit_vector);
        assert((0xF0u8 | ((c >> 18) & 0x7) as u8) != 0) by (bit_vector);
        assert((0x80u8 | (c & 0x3F) as u8) != 0) by (bit_vector);
        assert((0x80u8 | ((c >> 6) & 0x3F) as u8) != 0) by (bit_vector);
        assert((0x80u8 | ((c >> 12) & 0x3F) as u8) != 0) by (bit_vector);
        assert(no_zero(vstd::utf8::encode_scalar(c)));
    }
}

/// Text that ends at the first zero byte is read back.
proof fn split_at_zero(a1: Seq<u8>, r1: Seq<u8>, a2: Seq<u8>, r2: Seq<u8>)
    requires
        no_zero(a1),
        no_zero(a2),
        a1 + seq![0u8] + r1 == a2 + seq![0u8] + r2,
    ensures
        a1 == a2,
        r1 == r2,
{
    let s1 = a1 + seq![0u8] + r1;
    let s2 = a2 + seq![0u8] + r2;
    assert(s1[a1.len() as int] == 0);
    assert(s2[a2.len() as int] == 0);
    if a1.len() < a2.len() {
        assert(s2[a1.len() as int] == a2[a1.len() as int]);
    } else if a2.len() < a1.len() {
        assert(s1[a2.len() as int] == a1[a2.len() as int]);
    }
    let n = a1.len() as int;
    assert(a1 =~= s1.take(n));
    assert(a2 =~= s2.take(n));
    assert(r1 =~= s1.skip(n + 1));
    assert(r2 =~= s2.skip(n + 1));
}

/// A known prefix can be taken off.
proof fn drop_prefix(p1: Seq<u8>, r1: Seq<u8>, p2: Seq<u8>, r2: Seq<u8>)
    requires
        p1.len() == p2.len(),
        p1 + r1 == p2 + r2,
    ensures
        p1 == p2,
        r1 == r2,
{
    assert(p1 =~= (p1 + r1).take(p1.len() as int));
    assert(p2 =~= (p2 + r2).take(p1.len() as int));
    assert(r1 =~= (p1 + r1).skip(p1.len() as int));
    assert(r2 =~= (p2 + r2).skip(p1.len() as int));
}

/// Equal little-endian bytes come from equal numbers.
proof fn le64_injective(a: u64, b: u64)
    requires
        crate::bytes::le64(a) == crate::bytes::le64(b),
    ensures
        a == b,
{
    let s = crate::bytes::le64(a);
    assert(s.subrange(0, 8) =~= s);
    crate::bytes::le64_round_trip(a, s, 0);
    crate::bytes::le64_round_trip(b, s, 0);
}

/// Law: the client's proof binds every field of the request. Two requests with
/// the same transcript are the same request; a mode or a name with a NUL
/// character in it is left out, since NUL ends each in the transcript.
pub proof fn client_transcript_binds_all_fields(
    version1: i64,
    mode1: Seq<char>,
    name1: Seq<char>,
    size1: i64,
    pub1: Seq<u8>,
    version2: i64,
    mode2: Seq<char>,
    name2: Seq<char>,
    size2: i64,
    pub2: Seq<u8>,
)
    requires
        !mode1.contains('\0') && !name1.contains('\0'),
        !mode2.contains('\0') && !name2.contains('\0'),
        client_transcript(version1, mode1, name1, size1, pub1) == client_transcript(
            version2,
            mode2,
            name2,
            size2,
            pub2,
        ),
    ensures
        version1 == version2,
        mode1 == mode2,
        name1 == name2,
        size1 == size2,
        pub1 == pub2,
{
    let domain = encode_utf8("girth-auth-client-v1"@);
    let v1 = crate::bytes::le64(crate::bytes::bits_of_i64(version1));
    let v2 = crate::bytes::le64(crate::bytes::bits_of_i64(version2));
    let z1 = crate::bytes::le64(crate::bytes::bits_of_i64(size1));
    let z2 = crate::bytes::le64(crate::bytes::bits_of_i64(size2));
    let m1 = encode_utf8(mode1);
    let m2 = encode_utf8(mode2);
    let n1 = encode_utf8(name1);
    let n2 = encode_utf8(name2);
    let tail1 = n1 + seq![0u8] + (z1 + pub1);
    let tail2 = n2 + seq![0u8] + (z2 + pub2);
    let body1 = m1 + seq![0u8] + tail1;
    let body2 = m2 + seq![0u8] + tail2;
    assert(client_transcript(version1, mode1, name1, size1, pub1) =~= domain + (v1 + body1));
    assert(client_transcript(version2, mode2, name2, size2, pub2) =~= domain + (v2 + body2));
    drop_prefix(domain, v1 + body1, domain, v2 + body2);
    drop_prefix(v1, body1, v2, body2);
    text_without_nul_has_no_zero(mode1);
    text_without_nul_has_no_zero(mode2);
    text_without_nul_has_no_zero(name1);
    text_without_nul_has_no_zero(name2);
    split_at_zero(m1, tail1, m2, tail2);
    split_at_zero(n1, z1 + pub1, n2, z2 + pub2);
    drop_prefix(z1, pub1, z2, pub2);
    le64_injective(crate::bytes::bits_of_i64(version1), crate::bytes::bits_of_i64(version2));
    le64_injective(crate::bytes::bits_of_i64(size1), crate::bytes::bits_of_i64(size2));
    crate::bytes::i64_bits_injective(version1, version2);
    crate::bytes::i64_bits_injective(size1, size2);
    vstd::utf8::encode_utf8_decode_utf8(mode1);
    vstd::utf8::encode_utf8_decode_utf8(mode2);
    vstd::utf8::encode_utf8_decode_utf8(name1);
    vstd::utf8::encode_utf8_decode_utf8(name2);
}

/// Law: the server's proof binds the session, the server's public key and the
/// client's proof, which always has the same length.
pub proof fn server_transcript_binds_all_fields(
    session1: u32,
    pub1: Seq<u8>,
    mac1: Seq<u8>,
    session2: u32,
    pub2: Seq<u8>,
    mac2: Seq<u8>,
)
    requires
        mac1.len() == mac2.len(),
        server_transcript(session1, pub1, mac1) == server_transcript(session2, pub2, mac2),
    ensures
        session1 == session2,
        pub1 == pub2,
        mac1 == mac2,
{
    let domain = encode_utf8("girth-auth-server-v1"@);
    let s1 = crate::bytes::le32(session1);
    let s2 = crate::bytes::le32(session2);
    assert(server_transcript(session1, pub1, mac1) =~= domain + (s1 + (pub1 + mac1)));
    assert(server_transcript(session2, pub2, mac2) =~= domain + (s2 + (pub2 + mac2)));
    drop_prefix(domain, s1 + (pub1 + mac1), domain, s2 + (pub2 + mac2));
    drop_prefix(s1, pub1 + mac1, s2, pub2 + mac2);
    assert((pub1 + mac1).len() == (pub2 + mac2).len());
    drop_prefix(pub1, mac1, pub2, mac2);
    assert(s1.subrange(0, 4) =~= s1);
    crate::bytes::le32_round_trip(session1, s1, 0);
    crate::bytes::le32_round_trip(session2, s1, 0);
}

/// Law: no client transcript is a server transcript, so one side's proof cannot
/// serve as the other's.
pub proof fn transcripts_are_separate(
    version: i64,
    mode: Seq<char>,
    name: Seq<char>,
    size: i64,
    client_pub: Seq<u8>,
    session: u32,
    server_pub: Seq<u8>,
    client_mac: Seq<u8>,
)
    ensures
        client_transcript(version, mode, name, size, client_pub) != server_transcript(
            session,
            server_pub,
            client_mac,
        ),
{
    let c = "girth-auth-client-v1"@;
    let s = "girth-auth-server-v1"@;
    reveal_strlit("girth-auth-client-v1");
    reveal_strlit("girth-auth-server-v1");
    assert(vstd::utf8::is_ascii_chars(c));
    assert(vstd::utf8::is_ascii_chars(s));
    vstd::utf8::is_ascii_chars_encode_utf8(c);
    vstd::utf8::is_ascii_chars_encode_utf8(s);
    let t = client_transcript(version, mode, name, size, client_pub);
    let u = server_transcript(session, server_pub, client_mac);
    assert(t[11] == encode_utf8(c)[11]);
    assert(u[11] == encode_utf8(s)[11]);
    assert(c[11] == 'c' && s[11] == 's');
}

} // verus!
