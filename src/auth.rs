use crate::text::same_text;
use vstd::prelude::*;

verus! {

/// The request methods that the endpoint tells apart.
#[derive(Clone, Copy, Debug, PartialEq, Eq, Structural)]
pub enum Method {
    Get,
    Post,
    Other,
}

/// Where an accepted request goes.
#[derive(Clone, Copy, Debug, PartialEq, Eq, Structural)]
pub enum Route {
    /// `GET /`: answered with an empty body, without authentication.
    HealthCheck,
    /// `POST /discord`: an interaction, once authenticated.
    Interactions,
}

/// The ways a request is refused at the HTTP level.
#[derive(Clone, Copy, Debug, PartialEq, Eq, Structural)]
pub enum HttpError {
    BadRequest,
    Unauthorized,
    NotFound,
    MethodNotAllowed,
    Internal,
}

pub open spec fn status_of(e: HttpError) -> u16 {
    match e {
        HttpError::BadRequest => 400,
        HttpError::Unauthorized => 401,
        HttpError::NotFound => 404,
        HttpError::MethodNotAllowed => 405,
        HttpError::Internal => 500,
    }
}

impl HttpError {
    /// The HTTP status code of this refusal.
    pub fn status(&self) -> (r: u16)
        ensures
            r == status_of(*self),
    {
        match self {
            HttpError::BadRequest => 400,
            HttpError::Unauthorized => 401,
            HttpError::NotFound => 404,
            HttpError::MethodNotAllowed => 405,
            HttpError::Internal => 500,
        }
    }
}

pub open spec fn route_of(method: Method, path: Seq<char>) -> Result<Route, HttpError> {
    match method {
        Method::Get => if path == "/"@ {
            Ok(Route::HealthCheck)
        } else {
            Err(HttpError::NotFound)
        },
        Method::Post => if path == "/discord"@ {
            Ok(Route::Interactions)
        } else {
            Err(HttpError::NotFound)
        },
        Method::Other => Err(HttpError::MethodNotAllowed),
    }
}

/// Decides where a request goes from its method and path alone.
pub fn route(method: Method, path: &str) -> (r: Result<Route, HttpError>)
    ensures
        r == route_of(method, path@),
{
    match method {
        Method::Get => if same_text(path, "/") {
            Ok(Route::HealthCheck)
        } else {
            Err(HttpError::NotFound)
        },
        Method::Post => if same_text(path, "/discord") {
            Ok(Route::Interactions)
        } else {
            Err(HttpError::NotFound)
        },
        Method::Other => Err(HttpError::MethodNotAllowed),
    }
}

/// The value of a hexadecimal digit, in either case.
pub open spec fn hex_digit(c: u8) -> Option<int> {
    if 48 <= c <= 57 {
        Some(c - 48)
    } else if 97 <= c <= 102 {
        Some(c - 97 + 10)
    } else if 65 <= c <= 70 {
        Some(c - 65 + 10)
    } else {
        None
    }
}

/// `s` is an even number of hexadecimal digits.
pub open spec fn is_hex(s: Seq<u8>) -> bool {
    s.len() % 2 == 0 && forall|i: int| 0 <= i < s.len() ==> #[trigger] hex_digit(s[i]) is Some
}

/// The bytes that the hexadecimal digits `s` spell, two digits a byte, the
/// high digit first.
pub open spec fn hex_decoded(s: Seq<u8>) -> Seq<u8> {
    Seq::new(
        s.len() / 2,
        |i: int| (hex_digit(s[2 * i]).unwrap() * 16 + hex_digit(s[2 * i + 1]).unwrap()) as u8,
    )
}

/// Relies on `hex::decode`: it fails on an odd length or a byte that is not a
/// hexadecimal digit of either case, and otherwise turns each pair of digits
/// into one byte, the high digit first.
#[verifier::external_body]
fn decode_hex(s: &[u8]) -> (r: Result<Vec<u8>, hex::FromHexError>)
    ensures
        r is Ok <==> is_hex(s@),
        r is Ok ==> r->Ok_0@ == hex_decoded(s@),
{
    hex::decode(s)
}

/// Whether `ed25519_dalek` accepts `signature` as a strict Ed25519 signature
/// of `message` under the public key whose encoding is `key`.
pub uninterp spec fn ed25519_strict_accepts(key: Seq<u8>, message: Seq<u8>, signature: Seq<u8>) -> bool;

/// Relies on `ed25519_dalek::VerifyingKey::from_bytes`,
/// `ed25519_dalek::Signature::from_slice` and
/// `ed25519_dalek::VerifyingKey::verify_strict`: a key that does not decode, a
/// signature of the wrong length, or a signature that fails the strict check
/// is refused. The outcome depends on the three byte strings alone.
#[verifier::external_body]
fn verify_strict(key: &[u8; 32], message: &[u8], signature: &[u8]) -> (r: bool)
    ensures
        r == ed25519_strict_accepts(key@, message@, signature@),
{
    match (
        ed25519_dalek::VerifyingKey::from_bytes(key),
        ed25519_dalek::Signature::from_slice(signature),
    ) {
        (Ok(k), Ok(sig)) => k.verify_strict(message, &sig).is_ok(),
        _ => false,
    }
}

/// The message that a request's signature covers: the timestamp header's
/// bytes, then the body's.
pub fn signed_message(timestamp: &[u8], body: &[u8]) -> (r: Vec<u8>)
    ensures
        r@ == timestamp@ + body@,
{
    let mut message: Vec<u8> = Vec::new();
    let mut i: usize = 0;
    while i < timestamp.len()
        invariant
            i <= timestamp@.len(),
            message@ == timestamp@.take(i as int),
        decreases timestamp@.len() - i,
    {
        message.push(timestamp[i]);
        i += 1;
        assert(message@ =~= timestamp@.take(i as int));
    }
    let mut j: usize = 0;
    while j < body.len()
        invariant
            j <= body@.len(),
            message@ == timestamp@ + body@.take(j as int),
        decreases body@.len() - j,
    {
        message.push(body[j]);
        j += 1;
        assert(message@ =~= timestamp@ + body@.take(j as int));
    }
    assert(timestamp@.take(timestamp@.len() as int) =~= timestamp@);
    assert(body@.take(body@.len() as int) =~= body@);
    message
}

/// What a request must carry before its signature is checked: both security
/// headers (else `Unauthorized`), and a signature of 64 bytes written in
/// hexadecimal (else `BadRequest`).
pub open spec fn challenge_outcome(signature: Option<Seq<u8>>, timestamp: Option<Seq<u8>>) -> Result<
    (),
    HttpError,
> {
    if signature is None || timestamp is None {
        Err(HttpError::Unauthorized)
    } else if !is_hex(signature->Some_0) || hex_decoded(signature->Some_0).len() != 64 {
        Err(HttpError::BadRequest)
    } else {
        Ok(())
    }
}

pub open spec fn bytes_of(s: Option<&[u8]>) -> Option<Seq<u8>> {
    match s {
        Some(b) => Some(b@),
        None => None,
    }
}

/// A signature to check and the message that it must cover.
pub struct Challenge {
    pub signature: Vec<u8>,
    pub message: Vec<u8>,
}

/// Reads the security headers of a request into the signature to check and
/// the message that it must cover.
pub fn challenge(signature: Option<&[u8]>, timestamp: Option<&[u8]>, body: &[u8]) -> (r: Result<
    Challenge,
    HttpError,
>)
    ensures
        r is Ok <==> challenge_outcome(bytes_of(signature), bytes_of(timestamp)) is Ok,
        r is Err ==> r->Err_0 == challenge_outcome(bytes_of(signature), bytes_of(timestamp))->Err_0,
        r is Ok ==> r->Ok_0.message@ == timestamp->Some_0@ + body@,
        r is Ok ==> r->Ok_0.signature@ == hex_decoded(signature->Some_0@),
{
    let (signature, timestamp) = match (signature, timestamp) {
        (Some(s), Some(t)) => (s, t),
        _ => return Err(HttpError::Unauthorized),
    };
    let bytes = match decode_hex(signature) {
        Ok(bytes) => bytes,
        Err(_) => return Err(HttpError::BadRequest),
    };
    if bytes.len() != 64 {
        return Err(HttpError::BadRequest);
    }
    Ok(Challenge { signature: bytes, message: signed_message(timestamp, body) })
}

/// Authenticates a request to the interactions route: its signature header
/// must be a valid Ed25519 signature, under `key`, of the timestamp header
/// followed by the body. Missing headers and a signature that does not
/// verify are `Unauthorized`; a signature that is not 64 bytes in
/// hexadecimal is `BadRequest`. `key` is the encoded public key.
pub fn authenticate(
    signature: Option<&[u8]>,
    timestamp: Option<&[u8]>,
    body: &[u8],
    key: &[u8; 32],
) -> (r: Result<(), HttpError>)
    ensures
        challenge_outcome(bytes_of(signature), bytes_of(timestamp)) is Err ==> r
            == challenge_outcome(bytes_of(signature), bytes_of(timestamp)),
        challenge_outcome(bytes_of(signature), bytes_of(timestamp)) is Ok ==> (r is Ok
            <==> ed25519_strict_accepts(
            key@,
            timestamp->Some_0@ + body@,
            hex_decoded(signature->Some_0@),
        )),
        r is Err ==> r->Err_0 == HttpError::Unauthorized || r->Err_0 == HttpError::BadRequest,
{
    let c = challenge(signature, timestamp, body)?;
    if verify_strict(key, c.message.as_slice(), c.signature.as_slice()) {
        Ok(())
    } else {
        Err(HttpError::Unauthorized)
    }
}

/// A signature header whose length is not that of 64 bytes in hexadecimal is
/// a malformed request, never an authentication failure.
pub proof fn lemma_wrong_length_is_malformed(signature: Seq<u8>, timestamp: Seq<u8>)
    requires
        signature.len() != 128,
    ensures
        challenge_outcome(Some(signature), Some(timestamp)) == Err::<(), HttpError>(
            HttpError::BadRequest,
        ),
{
    if is_hex(signature) {
        assert(hex_decoded(signature).len() == signature.len() / 2);
    }
}

} // verus!
