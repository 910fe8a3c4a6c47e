//! Authentication of an inbound request: an Ed25519 signature, sent as
//! hexadecimal text, over the request's timestamp followed by its body.

use vstd::prelude::*;

verus! {

/// Length of a public key in bytes.
pub const KEY_LENGTH: usize = 32;

/// Length of a signature in bytes.
pub const SIGNATURE_LENGTH: usize = 64;

/// Why a request is turned away.
#[derive(Debug, Clone, Copy, PartialEq, Eq, Structural)]
pub enum Rejection {
    /// A signature header is missing, or the signature does not match.
    Unauthorized,
    /// The signature is not hexadecimal text of the right length.
    BadRequest,
}

/// `c` is one of `0`-`9`, `a`-`f`, `A`-`F`.
pub open spec fn is_hex_digit(c: u8) -> bool {
    ||| 0x30 <= c <= 0x39
    ||| 0x41 <= c <= 0x46
    ||| 0x61 <= c <= 0x66
}

/// The number that a hexadecimal digit stands for.
pub open spec fn hex_value(c: u8) -> int
    recommends
        is_hex_digit(c),
{
    if 0x30 <= c <= 0x39 {
        c - 0x30
    } else if 0x41 <= c <= 0x46 {
        c - 0x41 + 10
    } else {
        c - 0x61 + 10
    }
}

/// `text` is an even number of hexadecimal digits.
pub open spec fn is_hex(text: Seq<u8>) -> bool {
    &&& text.len() % 2 == 0
    &&& forall|i: int| 0 <= i < text.len() ==> is_hex_digit(#[trigger] text[i])
}

/// The bytes that hexadecimal text stands for, two digits to the byte, the
/// high digit first.
pub open spec fn hex_bytes(text: Seq<u8>) -> Seq<u8>
    recommends
        is_hex(text),
{
    Seq::new(
        text.len() / 2,
        |i: int| (hex_value(text[2 * i]) * 16 + hex_value(text[2 * i + 1])) as u8,
    )
}

/// Whether `ed25519_dalek` accepts `signature` for `message` under the public
/// key `key`, by its strict rules: the key decodes to a point, and
/// `VerifyingKey::verify_strict` succeeds.
pub uninterp spec fn ed25519_accepts(key: Seq<u8>, message: Seq<u8>, signature: Seq<u8>) -> bool;

/// What becomes of the signature headers: the signature they carry, or the
/// reason to turn the request away. Both headers must be present, and the
/// signature must be 128 hexadecimal digits.
pub open spec fn signature_of(signature: Option<Seq<u8>>, timestamp: Option<Seq<u8>>) -> Result<
    Seq<u8>,
    Rejection,
> {
    match (signature, timestamp) {
        (Some(text), Some(_)) => if is_hex(text) && text.len() == 2 * SIGNATURE_LENGTH {
            Ok(hex_bytes(text))
        } else {
            Err(Rejection::BadRequest)
        },
        _ => Err(Rejection::Unauthorized),
    }
}

/// `hex::decode`: succeeds exactly on an even number of hexadecimal digits, of
/// either case, and gives one byte for each pair, the first digit of a pair
/// being the high one.
#[verifier::external_body]
fn decode_hex(text: &[u8]) -> (bytes: Option<Vec<u8>>)
    ensures
        bytes is Some <==> is_hex(text@),
        bytes matches Some(b) ==> b@ == hex_bytes(text@),
{
    match hex::decode(text) {
        Ok(bytes) => Some(bytes),
        Err(_) => None,
    }
}

/// `ed25519_dalek::VerifyingKey::verify_strict`, on a key and a signature given
/// as bytes: the result is that of parsing the key with
/// `VerifyingKey::from_bytes` and, where that succeeds, of `verify_strict` on
/// the message and the signature.
#[verifier::external_body]
fn verify_strict(key: &[u8; 32], message: &[u8], signature: &[u8; 64]) -> (accepted: bool)
    ensures
        accepted == ed25519_accepts(key@, message@, signature@),
{
    match ed25519_dalek::VerifyingKey::from_bytes(key) {
        Ok(key) => key.verify_strict(
            message,
            &ed25519_dalek::Signature::from_bytes(signature),
        ).is_ok(),
        Err(_) => false,
    }
}

/// Reads the signature from the request's headers, before anything of the
/// body is looked at.
pub fn read_signature(signature: Option<&[u8]>, timestamp: Option<&[u8]>) -> (read: Result<
    [u8; 64],
    Rejection,
>)
    ensures
        match read {
            Ok(bytes) => signature_of(headers_view(signature), headers_view(timestamp)) == Ok::<
                Seq<u8>,
                Rejection,
            >(bytes@),
            Err(rejection) => signature_of(headers_view(signature), headers_view(timestamp))
                == Err::<Seq<u8>, Rejection>(rejection),
        },
{
    let text = match (signature, timestamp) {
        (Some(text), Some(_)) => text,
        _ => {
            return Err(Rejection::Unauthorized);
        },
    };
    let decoded = match decode_hex(text) {
        Some(decoded) => decoded,
        None => {
            return Err(Rejection::BadRequest);
        },
    };
    if decoded.len() != SIGNATURE_LENGTH {
        return Err(Rejection::BadRequest);
    }
    let mut bytes: [u8; 64] = [0; 64];
    let mut i: usize = 0;
    while i < SIGNATURE_LENGTH
        invariant
            i <= SIGNATURE_LENGTH,
            decoded@.len() == SIGNATURE_LENGTH,
            forall|k: int| 0 <= k < i ==> bytes@[k] == decoded@[k],
        decreases SIGNATURE_LENGTH - i,
    {
        bytes[i] = decoded[i];
        i += 1;
    }
    assert(bytes@ =~= decoded@);
    Ok(bytes)
}

/// The value of an optional header.
pub open spec fn headers_view(header: Option<&[u8]>) -> Option<Seq<u8>> {
    match header {
        Some(bytes) => Some(bytes@),
        None => None,
    }
}

/// The verdict on a request whose signature was checked: it passes when the
/// signature was accepted and is unauthorized otherwise.
pub fn verdict(accepted: bool) -> (verdict: Result<(), Rejection>)
    ensures
        verdict == if accepted {
            Ok::<(), Rejection>(())
        } else {
            Err::<(), Rejection>(Rejection::Unauthorized)
        },
{
    if accepted {
        Ok(())
    } else {
        Err(Rejection::Unauthorized)
    }
}

/// Checks `signature` against the message that a request stands for: its
/// timestamp followed by its body.
pub fn check_signature(
    key: &[u8; 32],
    timestamp: &[u8],
    body: &[u8],
    signature: &[u8; 64],
) -> (checked: Result<(), Rejection>)
    ensures
        checked is Ok <==> ed25519_accepts(key@, timestamp@ + body@, signature@),
        checked is Err ==> checked == Err::<(), Rejection>(Rejection::Unauthorized),
{
    let mut message: Vec<u8> = Vec::new();
    message.extend_from_slice(timestamp);
    message.extend_from_slice(body);
    assert(message@ =~= timestamp@ + body@);
    verdict(verify_strict(key, message.as_slice(), signature))
}

} // verus!
