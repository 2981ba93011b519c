//! The mutual pre-shared-key handshake.
//!
//! Before any frame flows, the initiator writes one message: the magic
//! bytes that name protocol version one, its machine name, a zero
//! separator, then the hex SHA-256 digest of the PSK. The responder
//! checks the magic, the name and the digest, answers `OK` on success
//! and closes the connection otherwise. Nothing after the handshake is
//! encrypted: the digest authenticates knowledge of the shared secret,
//! it does not hide the traffic.

use vstd::prelude::*;
use vstd::utf8::{decode_utf8, encode_utf8, valid_utf8};
use crate::fingerprint::{sha256_hex, sha256_hex_of};
use crate::text::bytes_eq;

verus! {

/// How a handshake message fails the responder's checks.
#[derive(Debug, Clone, Copy, PartialEq, Eq, Structural)]
pub enum HandshakeError {
    /// The message does not start with the protocol's magic bytes.
    BadMagic,
    /// No zero separator: the message cannot be split into name and
    /// digest.
    Malformed,
    /// The machine name is empty or not UTF-8.
    BadName,
    /// The presented digest is not the digest of the local PSK.
    WrongPsk,
}

/// The magic bytes identifying protocol version one:
/// `MULTISHIVA_PSK_V1` in ASCII.
pub open spec fn spec_magic() -> Seq<u8> {
    seq![
        0x4du8,
        0x55u8,
        0x4cu8,
        0x54u8,
        0x49u8,
        0x53u8,
        0x48u8,
        0x49u8,
        0x56u8,
        0x41u8,
        0x5fu8,
        0x50u8,
        0x53u8,
        0x4bu8,
        0x5fu8,
        0x56u8,
        0x31u8,
    ]
}

/// The magic bytes, for the wire.
pub fn magic_bytes() -> (r: Vec<u8>)
    ensures
        r@ == spec_magic(),
{
    let r: Vec<u8> = vec![
        0x4du8, 0x55u8, 0x4cu8, 0x54u8, 0x49u8, 0x53u8, 0x48u8, 0x49u8, 0x56u8, 0x41u8, 0x5fu8,
        0x50u8, 0x53u8, 0x4bu8, 0x5fu8, 0x56u8, 0x31u8,
    ];
    proof {
        assert(r@ =~= spec_magic());
    }
    r
}

/// The responder's two-byte acknowledgment, `OK` in ASCII.
pub open spec fn spec_ack() -> Seq<u8> {
    seq![0x4fu8, 0x4bu8]
}

/// The acknowledgment bytes, for the wire.
pub fn ack_bytes() -> (r: Vec<u8>)
    ensures
        r@ == spec_ack(),
{
    let r: Vec<u8> = vec![0x4fu8, 0x4bu8];
    proof {
        assert(r@ =~= spec_ack());
    }
    r
}

/// Whether a received reply is the responder's acknowledgment.
pub fn is_ack(buf: &[u8]) -> (r: bool)
    ensures
        r == (buf@ == spec_ack()),
{
    let ack = ack_bytes();
    bytes_eq(buf, ack.as_slice())
}

/// The digest a peer presents: the hex SHA-256 of the PSK's UTF-8 bytes.
pub open spec fn spec_psk_hash(psk: Seq<char>) -> Seq<char> {
    sha256_hex_of(encode_utf8(psk))
}

/// Computes the PSK digest that the handshake carries and the
/// fingerprint store pins.
pub fn compute_psk_hash(psk: &str) -> (r: String)
    ensures
        r@ == spec_psk_hash(psk@),
        r@.len() == 64,
{
    sha256_hex(psk.as_bytes())
}

/// The initiator's message: magic, name bytes, a zero separator, then
/// the UTF-8 bytes of the hex PSK digest.
pub open spec fn spec_handshake(name: Seq<char>, psk: Seq<char>) -> Seq<u8> {
    spec_magic() + encode_utf8(name) + seq![0u8] + encode_utf8(spec_psk_hash(psk))
}

/// Builds the initiator's handshake message.
pub fn build_handshake(machine_name: &str, psk: &str) -> (r: Vec<u8>)
    ensures
        r@ == spec_handshake(machine_name@, psk@),
{
    let mut out = magic_bytes();
    out.extend_from_slice(machine_name.as_bytes());
    out.push(0);
    let h = compute_psk_hash(psk);
    out.extend_from_slice(h.as_str().as_bytes());
    proof {
        assert(out@ =~= spec_handshake(machine_name@, psk@));
    }
    out
}

/// The index of the first zero byte, if any.
pub open spec fn first_zero(s: Seq<u8>) -> Option<int>
    decreases s.len(),
{
    if s.len() == 0 {
        None
    } else if s[0] == 0 {
        Some(0)
    } else {
        match first_zero(s.drop_first()) {
            Some(i) => Some(i + 1),
            None => None,
        }
    }
}

proof fn lemma_first_zero_at(s: Seq<u8>, i: int)
    requires
        0 <= i < s.len(),
        s[i] == 0,
        forall|j: int| 0 <= j < i ==> s[j] != 0,
    ensures
        first_zero(s) == Some(i),
    decreases i,
{
    if i == 0 {
    } else {
        let t = s.drop_first();
        assert forall|j: int| 0 <= j < i - 1 implies t[j] != 0 by {
            assert(t[j] == s[j + 1]);
        }
        assert(t[i - 1] == 0);
        lemma_first_zero_at(t, i - 1);
    }
}

proof fn lemma_first_zero_none(s: Seq<u8>)
    requires
        forall|j: int| 0 <= j < s.len() ==> s[j] != 0,
    ensures
        first_zero(s) is None,
    decreases s.len(),
{
    if s.len() > 0 {
        let t = s.drop_first();
        assert forall|j: int| 0 <= j < t.len() implies t[j] != 0 by {
            assert(t[j] == s[j + 1]);
        }
        lemma_first_zero_none(t);
    }
}

/// What the responder's check makes of a message, against the local PSK:
/// the initiator's machine name on success, the failure otherwise.
pub open spec fn spec_check_handshake(b: Seq<u8>, psk: Seq<char>) -> Result<
    Seq<char>,
    HandshakeError,
> {
    if b.len() < 17 || b.subrange(0, 17) != spec_magic() {
        Err(HandshakeError::BadMagic)
    } else {
        let rest = b.skip(17);
        match first_zero(rest) {
            None => Err(HandshakeError::Malformed),
            Some(z) => {
                let name_bytes = rest.subrange(0, z);
                let hash_bytes = rest.subrange(z + 1, rest.len() as int);
                if z == 0 || !valid_utf8(name_bytes) {
                    Err(HandshakeError::BadName)
                } else if hash_bytes != encode_utf8(spec_psk_hash(psk)) {
                    Err(HandshakeError::WrongPsk)
                } else {
                    Ok(decode_utf8(name_bytes))
                }
            },
        }
    }
}

/// The responder's check: magic, then name up to the zero separator,
/// then the digest against the local PSK. Returns the initiator's
/// machine name exactly when every check passes.
pub fn check_handshake(buf: &[u8], psk: &str) -> (r: Result<String, HandshakeError>)
    ensures
        match r {
            Ok(name) => spec_check_handshake(buf@, psk@) == Ok::<Seq<char>, HandshakeError>(name@),
            Err(e) => spec_check_handshake(buf@, psk@) == Err::<Seq<char>, HandshakeError>(e),
        },
{
    let blen = buf.len();
    if blen < 17 {
        return Err(HandshakeError::BadMagic);
    }
    let m = magic_bytes();
    if !bytes_eq(vstd::slice::slice_subrange(buf, 0, 17), m.as_slice()) {
        return Err(HandshakeError::BadMagic);
    }
    let ghost rest = buf@.skip(17);
    proof {
        assert forall|j: int| 0 <= j < rest.len() implies #[trigger] rest[j] == buf@[j + 17] by {}
    }
    // find the zero separator in buf[17..]
    let mut z: usize = 17;
    while z < blen && buf[z] != 0
        invariant
            17 <= z <= blen,
            blen == buf@.len(),
            rest == buf@.skip(17),
            forall|j: int| 0 <= j < rest.len() ==> #[trigger] rest[j] == buf@[j + 17],
            forall|j: int| 0 <= j < z - 17 ==> #[trigger] rest[j] != 0,
        decreases blen - z,
    {
        z = z + 1;
    }
    let zero_at: Option<usize> = if z < blen {
        Some(z)
    } else {
        None
    };
    match zero_at {
        None => {
            proof {
                lemma_first_zero_none(rest);
            }
            Err(HandshakeError::Malformed)
        }
        Some(z) => {
            proof {
                lemma_first_zero_at(rest, z - 17);
            }
            if z == 17 {
                return Err(HandshakeError::BadName);
            }
            let name_vec = vstd::slice::slice_to_vec(vstd::slice::slice_subrange(buf, 17, z));
            proof {
                assert(name_vec@ =~= rest.subrange(0, z - 17));
            }
            match crate::codec::string_from_utf8(name_vec) {
                None => Err(HandshakeError::BadName),
                Some(name) => {
                    let expected = compute_psk_hash(psk);
                    let hash_part = vstd::slice::slice_subrange(buf, z + 1, blen);
                    proof {
                        assert(hash_part@ =~= rest.subrange(z - 17 + 1, rest.len() as int));
                    }
                    if bytes_eq(hash_part, expected.as_str().as_bytes()) {
                        Ok(name)
                    } else {
                        Err(HandshakeError::WrongPsk)
                    }
                }
            }
        }
    }
}

/// A handshake built with a name that holds no NUL character passes the
/// check against the same PSK and hands the responder exactly the
/// initiator's name. (A NUL inside the name would collide with the
/// separator; machine names never carry one.)
pub proof fn lemma_handshake_round_trip(name: Seq<char>, psk: Seq<char>)
    requires
        name.len() > 0,
        forall|i: int| 0 <= i < encode_utf8(name).len() ==> #[trigger] encode_utf8(name)[i] != 0,
    ensures
        spec_check_handshake(spec_handshake(name, psk), psk) == Ok::<Seq<char>, HandshakeError>(
            name,
        ),
{
    broadcast use vstd::utf8::encode_utf8_decode_utf8;
    broadcast use vstd::utf8::encode_utf8_valid_utf8;

    let b = spec_handshake(name, psk);
    let nb = encode_utf8(name);
    let hb = encode_utf8(spec_psk_hash(psk));
    assert(b.subrange(0, 17) =~= spec_magic());
    let rest = b.skip(17);
    assert(rest =~= nb + seq![0u8] + hb);
    assert(rest[nb.len() as int] == 0);
    lemma_hex_of_chars_printable(crate::fingerprint::sha256_of(encode_utf8(psk)));
    lemma_hex_bytes_nonzero(spec_psk_hash(psk));
    assert forall|j: int| 0 <= j < nb.len() implies rest[j] != 0 by {
        assert(rest[j] == nb[j]);
    }
    lemma_first_zero_at(rest, nb.len() as int);
    assert(rest.subrange(0, nb.len() as int) =~= nb);
    assert(rest.subrange(nb.len() as int + 1, rest.len() as int) =~= hb);
    assert(nb.len() > 0) by {
        vstd::utf8::encode_utf8_first_scalar(name);
    }
    assert(decode_utf8(nb) == name);
}

/// A handshake built from a different secret never passes: whenever the
/// two secrets' digests differ, the check answers `WrongPsk`. (The
/// digests of two distinct secrets differing is what SHA-256 is relied
/// on for; this lemma takes it as its hypothesis.)
pub proof fn lemma_handshake_wrong_psk(name: Seq<char>, psk_sent: Seq<char>, psk_local: Seq<char>)
    requires
        name.len() > 0,
        forall|i: int| 0 <= i < encode_utf8(name).len() ==> #[trigger] encode_utf8(name)[i] != 0,
        spec_psk_hash(psk_sent) != spec_psk_hash(psk_local),
    ensures
        spec_check_handshake(spec_handshake(name, psk_sent), psk_local) == Err::<
            Seq<char>,
            HandshakeError,
        >(HandshakeError::WrongPsk),
{
    broadcast use vstd::utf8::encode_utf8_decode_utf8;
    broadcast use vstd::utf8::encode_utf8_valid_utf8;

    let b = spec_handshake(name, psk_sent);
    let nb = encode_utf8(name);
    let h_sent = spec_psk_hash(psk_sent);
    let h_local = spec_psk_hash(psk_local);
    assert(b.subrange(0, 17) =~= spec_magic());
    let rest = b.skip(17);
    assert(rest =~= nb + seq![0u8] + encode_utf8(h_sent));
    assert(rest[nb.len() as int] == 0);
    lemma_hex_of_chars_printable(crate::fingerprint::sha256_of(encode_utf8(psk_sent)));
    lemma_hex_bytes_nonzero(h_sent);
    assert forall|j: int| 0 <= j < nb.len() implies rest[j] != 0 by {
        assert(rest[j] == nb[j]);
    }
    lemma_first_zero_at(rest, nb.len() as int);
    assert(rest.subrange(0, nb.len() as int) =~= nb);
    assert(rest.subrange(nb.len() as int + 1, rest.len() as int) =~= encode_utf8(h_sent));
    assert(nb.len() > 0) by {
        vstd::utf8::encode_utf8_first_scalar(name);
    }
    // differing digests have differing byte encodings
    assert(encode_utf8(h_sent) != encode_utf8(h_local)) by {
        if encode_utf8(h_sent) == encode_utf8(h_local) {
            assert(decode_utf8(encode_utf8(h_sent)) == h_sent);
            assert(decode_utf8(encode_utf8(h_local)) == h_local);
        }
    }
}

/// Hex digit characters are printable ASCII.
proof fn lemma_hex_of_chars_printable(bytes: Seq<u8>)
    ensures
        forall|i: int|
            0 <= i < crate::fingerprint::hex_of(bytes).len() ==> '0'
                <= #[trigger] crate::fingerprint::hex_of(bytes)[i] <= '~',
{
    let h = crate::fingerprint::hex_of(bytes);
    assert forall|i: int| 0 <= i < h.len() implies '0' <= #[trigger] h[i] <= '~' by {
        let n = if i % 2 == 0 {
            bytes[i / 2] as int / 16
        } else {
            bytes[i / 2] as int % 16
        };
        assert(0 <= n < 16);
        assert(h[i] == crate::fingerprint::hex_digit(n));
    }
}

/// Printable ASCII characters encode to single nonzero bytes.
proof fn lemma_hex_bytes_nonzero(h: Seq<char>)
    requires
        forall|i: int| 0 <= i < h.len() ==> '0' <= #[trigger] h[i] <= '~',
    ensures
        forall|i: int| 0 <= i < encode_utf8(h).len() ==> #[trigger] encode_utf8(h)[i] != 0,
{
    assert(vstd::utf8::is_ascii_chars(h));
    vstd::utf8::is_ascii_chars_encode_utf8(h);
    assert forall|i: int| 0 <= i < encode_utf8(h).len() implies #[trigger] encode_utf8(h)[i]
        != 0 by {
        assert(encode_utf8(h)[i] == h[i] as u8);
        assert('0' <= h[i] <= '~');
    }
}

} // verus!
