//! Server-to-server request signatures.
//!
//! A request carries two headers: `x-auth-timestamp`, the UNIX time in seconds at which
//! it was signed, and `x-auth-signature`, the unpadded URL-safe Base64 encoding of
//! HMAC-SHA256, keyed with the shared secret, over the canonical payload
//! `timestamp \n METHOD \n path \n body`. A request is accepted when both headers are
//! present, the timestamp is a decimal integer no further than the allowed skew from the
//! server's clock, and the signature is the one the secret gives.

use vstd::prelude::*;
use vstd::string::{StringExecFns, StringSliceAdditionalSpecFns};
use vstd::utf8::encode_utf8;
use crate::text::{ascii_upper_bytes, bytes_equal, chars_of, parse_i64, parse_i64_spec};

verus! {

/// Name of the header that carries the signature.
pub const SIGNATURE_HEADER: &'static str = "x-auth-signature";

/// Name of the header that carries the signing time.
pub const TIMESTAMP_HEADER: &'static str = "x-auth-timestamp";

/// What the signature check needs to know: the shared secret, how far the signing time
/// may lie from the server's clock, and how large a body may be.
pub struct SignatureState {
    pub signature_secret: String,
    pub max_clock_skew_seconds: i64,
    pub max_body_bytes: usize,
}

/// The two signature headers of a request, where present.
pub struct SignatureHeaders {
    pub signature: Option<String>,
    pub timestamp: Option<String>,
}

/// Why a request was refused.
#[derive(Debug, Clone, Copy, PartialEq, Eq, Structural)]
pub enum SignatureError {
    MissingSignature,
    MissingTimestamp,
    InvalidTimestamp,
    TimestampSkew,
    InvalidSignature,
    InvalidBody,
}

/// The number of characters that the unpadded encoding gives to `n` bytes.
pub open spec fn base64_no_pad_len(n: nat) -> nat {
    (n / 3) * 4 + if n % 3 == 0 {
        0nat
    } else if n % 3 == 1 {
        2nat
    } else {
        3nat
    }
}

pub proof fn lemma_base64_url_no_pad_len(bytes: Seq<u8>)
    ensures
        base64_url_no_pad(bytes).len() == base64_no_pad_len(bytes.len()),
    decreases bytes.len(),
{
    if bytes.len() >= 3 {
        lemma_base64_url_no_pad_len(bytes.skip(3));
    }
}

/// HMAC-SHA256 of `message` under `key`.
pub uninterp spec fn hmac_sha256(key: Seq<u8>, message: Seq<u8>) -> Seq<u8>;

/// The character of a six-bit value in the URL-safe Base64 alphabet (RFC 4648, section 5):
/// `A`-`Z`, `a`-`z`, `0`-`9`, `-`, `_`.
pub open spec fn base64_url_char(v: int) -> char {
    if v < 26 {
        (('A' as int) + v) as char
    } else if v < 52 {
        (('a' as int) + (v - 26)) as char
    } else if v < 62 {
        (('0' as int) + (v - 52)) as char
    } else if v == 62 {
        '-'
    } else {
        '_'
    }
}

/// The URL-safe Base64 encoding of `bytes`, without padding: each group of three bytes
/// gives four characters, a final group of two bytes three, of one byte two.
pub open spec fn base64_url_no_pad(bytes: Seq<u8>) -> Seq<char>
    decreases bytes.len(),
{
    if bytes.len() == 0 {
        Seq::empty()
    } else if bytes.len() == 1 {
        seq![base64_url_char((bytes[0] as int) / 4), base64_url_char(((bytes[0] as int) % 4) * 16)]
    } else if bytes.len() == 2 {
        seq![
            base64_url_char((bytes[0] as int) / 4),
            base64_url_char(((bytes[0] as int) % 4) * 16 + (bytes[1] as int) / 16),
            base64_url_char(((bytes[1] as int) % 16) * 4),
        ]
    } else {
        seq![
            base64_url_char((bytes[0] as int) / 4),
            base64_url_char(((bytes[0] as int) % 4) * 16 + (bytes[1] as int) / 16),
            base64_url_char(((bytes[1] as int) % 16) * 4 + (bytes[2] as int) / 64),
            base64_url_char((bytes[2] as int) % 64),
        ] + base64_url_no_pad(bytes.skip(3))
    }
}

/// The tag that `hmac::Hmac::<sha2::Sha256>` computes over `message` under `key`:
/// it is named `hmac_sha256` and has the 32 bytes of a SHA-256 output. `new_from_slice`
/// accepts keys of any length (the crate's source returns `Ok` unconditionally).
#[verifier::external_body]
fn hmac_sha256_tag(key: &[u8], message: &[u8]) -> (tag: Vec<u8>)
    ensures
        tag@ == hmac_sha256(key@, message@),
        tag@.len() == 32,
{
    match <hmac::Hmac<sha2::Sha256> as hmac::Mac>::new_from_slice(key) {
        Ok(mut mac) => {
            hmac::Mac::update(&mut mac, message);
            hmac::Mac::finalize(mac).into_bytes().to_vec()
        },
        Err(_) => Vec::new(),
    }
}

/// `base64::engine::general_purpose::URL_SAFE_NO_PAD.encode`: the URL-safe alphabet without
/// padding, as `base64_url_no_pad` states it. The crate panics only where the encoded length overflows `usize`,
/// which no input of at most half of `usize::MAX` bytes does.
#[verifier::external_body]
fn encode_base64_url_no_pad(bytes: &[u8]) -> (encoded: String)
    requires
        bytes@.len() <= usize::MAX / 2,
    ensures
        encoded@ == base64_url_no_pad(bytes@),
{
    base64::Engine::encode(&base64::engine::general_purpose::URL_SAFE_NO_PAD, bytes)
}

/// The current UNIX time in seconds: `chrono::Utc::now().timestamp()`. Nothing is stated
/// of the value, which is the machine's clock. chrono panics where the system clock reads
/// before 1970; that depends on the machine, not on any input.
#[verifier::external_body]
fn unix_now() -> i64 {
    chrono::Utc::now().timestamp()
}

/// The bytes over which a request is signed: timestamp, upper-cased method, path and
/// body, separated by line feeds.
pub open spec fn canonical_payload(
    timestamp: Seq<u8>,
    method: Seq<u8>,
    path: Seq<u8>,
    body: Seq<u8>,
) -> Seq<u8> {
    timestamp + seq![10u8] + crate::text::ascii_upper_spec(method) + seq![10u8] + path + seq![
        10u8,
    ] + body
}

/// The canonical payload is the timestamp, a line feed, the method (each byte kept, ASCII
/// letters upper-cased), a line feed, the path, a line feed and then the whole body: its
/// length is the sum of the parts' lengths and three, it starts with the timestamp and
/// ends with the body.
pub proof fn law_canonical_payload_layout(
    timestamp: Seq<u8>,
    method: Seq<u8>,
    path: Seq<u8>,
    body: Seq<u8>,
)
    ensures
        ({
            let p = canonical_payload(timestamp, method, path, body);
            let t = timestamp.len() as int;
            let m = method.len() as int;
            let l = path.len() as int;
            &&& p.len() == t + m + l + body.len() + 3
            &&& p.subrange(0, t) == timestamp
            &&& p[t] == 10u8
            &&& p[t + 1 + m] == 10u8
            &&& p.subrange(t + m + 2, t + m + 2 + l) == path
            &&& p[t + m + l + 2] == 10u8
            &&& p.subrange(p.len() - body.len(), p.len() as int) == body
        }),
{
    let p = canonical_payload(timestamp, method, path, body);
    let t = timestamp.len() as int;
    let m = method.len() as int;
    let l = path.len() as int;
    assert(crate::text::ascii_upper_spec(method).len() == m);
    assert(p.subrange(0, t) =~= timestamp);
    assert(p.subrange(t + m + 2, t + m + 2 + l) =~= path);
    assert(p.subrange(p.len() - body.len(), p.len() as int) =~= body);
}

/// The signature that the secret gives to a request.
pub open spec fn expected_signature(
    secret: Seq<char>,
    timestamp: Seq<char>,
    method: Seq<char>,
    path: Seq<char>,
    body: Seq<u8>,
) -> Seq<char> {
    base64_url_no_pad(
        hmac_sha256(
            encode_utf8(secret),
            canonical_payload(encode_utf8(timestamp), encode_utf8(method), encode_utf8(path), body),
        ),
    )
}

/// How far apart two instants are, in seconds.
pub open spec fn distance(a: int, b: int) -> int {
    if a >= b {
        a - b
    } else {
        b - a
    }
}

/// The verdict on a request at server time `now`, where `expected` is the signature the
/// secret gives it: the first check that fails, in the order signature header, timestamp
/// header, timestamp syntax, clock skew, signature.
pub open spec fn verdict_with(
    state: &SignatureState,
    headers: &SignatureHeaders,
    now: i64,
    expected: Seq<char>,
) -> Result<(), SignatureError> {
    match headers.signature {
        None => Err(SignatureError::MissingSignature),
        Some(signature) => match headers.timestamp {
            None => Err(SignatureError::MissingTimestamp),
            Some(timestamp) => match parse_i64_spec(timestamp@) {
                None => Err(SignatureError::InvalidTimestamp),
                Some(t) => if distance(now as int, t as int) > state.max_clock_skew_seconds {
                    Err(SignatureError::TimestampSkew)
                } else if signature@ == expected {
                    Ok(())
                } else {
                    Err(SignatureError::InvalidSignature)
                },
            },
        },
    }
}

/// The signature the secret gives to a request, over the timestamp it carries (none where
/// it carries no timestamp).
pub open spec fn expected_for(
    state: &SignatureState,
    method: Seq<char>,
    path: Seq<char>,
    headers: &SignatureHeaders,
    body: Seq<u8>,
) -> Seq<char> {
    match headers.timestamp {
        Some(timestamp) => expected_signature(
            state.signature_secret@,
            timestamp@,
            method,
            path,
            body,
        ),
        None => Seq::empty(),
    }
}

/// The verdict on a request at server time `now`.
pub open spec fn verdict(
    state: &SignatureState,
    method: Seq<char>,
    path: Seq<char>,
    headers: &SignatureHeaders,
    body: Seq<u8>,
    now: i64,
) -> Result<(), SignatureError> {
    verdict_with(state, headers, now, expected_for(state, method, path, headers, body))
}

/// The verdict of the signature check on a request, where the check is enabled.
pub open spec fn request_verdict(
    enabled: bool,
    state: &SignatureState,
    method: Seq<char>,
    path: Seq<char>,
    headers: &SignatureHeaders,
    body: Seq<u8>,
    now: i64,
) -> Result<(), SignatureError> {
    if !enabled {
        Ok(())
    } else if body.len() > state.max_body_bytes {
        Err(SignatureError::InvalidBody)
    } else {
        verdict(state, method, path, headers, body, now)
    }
}


/// The request carries the signature that the secret gives it, and a well-formed
/// timestamp within the allowed skew of the server's clock `now`.
pub open spec fn is_authentic(
    state: &SignatureState,
    method: Seq<char>,
    path: Seq<char>,
    headers: &SignatureHeaders,
    body: Seq<u8>,
    now: i64,
) -> bool {
    match (headers.signature, headers.timestamp) {
        (Some(signature), Some(timestamp)) => match parse_i64_spec(timestamp@) {
            Some(t) => {
                &&& distance(now as int, t as int) <= state.max_clock_skew_seconds
                &&& signature@ == expected_signature(
                    state.signature_secret@,
                    timestamp@,
                    method,
                    path,
                    body,
                )
            },
            None => false,
        },
        _ => false,
    }
}

/// A request is accepted exactly when it is authentic: it carries the signature the
/// secret gives it and a timestamp within the allowed skew.
pub proof fn law_accepted_exactly_when_authentic(
    state: &SignatureState,
    method: Seq<char>,
    path: Seq<char>,
    headers: &SignatureHeaders,
    body: Seq<u8>,
    now: i64,
)
    ensures
        (verdict(state, method, path, headers, body, now) == Ok::<(), SignatureError>(()))
            <==> is_authentic(state, method, path, headers, body, now),
{
}

/// A request without a signature header is refused for that reason, whatever else it
/// carries; one with a signature but no timestamp header is refused for the missing
/// timestamp.
pub proof fn law_missing_headers_are_named(
    state: &SignatureState,
    method: Seq<char>,
    path: Seq<char>,
    headers: &SignatureHeaders,
    body: Seq<u8>,
    now: i64,
)
    ensures
        headers.signature is None ==> verdict(state, method, path, headers, body, now) == Err::<
            (),
            SignatureError,
        >(SignatureError::MissingSignature),
        headers.signature is Some && headers.timestamp is None ==> verdict(
            state,
            method,
            path,
            headers,
            body,
            now,
        ) == Err::<(), SignatureError>(SignatureError::MissingTimestamp),
{
}

/// A timestamp further from the server's clock than the allowed skew is refused for that
/// reason, whatever the signature.
pub proof fn law_stale_timestamp_is_refused(
    state: &SignatureState,
    method: Seq<char>,
    path: Seq<char>,
    headers: &SignatureHeaders,
    body: Seq<u8>,
    now: i64,
)
    requires
        headers.signature is Some,
        headers.timestamp is Some,
        parse_i64_spec(headers.timestamp->0@) is Some,
        distance(now as int, parse_i64_spec(headers.timestamp->0@)->0 as int)
            > state.max_clock_skew_seconds,
    ensures
        verdict(state, method, path, headers, body, now) == Err::<(), SignatureError>(
            SignatureError::TimestampSkew,
        ),
{
}

/// With the check disabled every request passes.
pub proof fn law_disabled_check_passes_everything(
    state: &SignatureState,
    method: Seq<char>,
    path: Seq<char>,
    headers: &SignatureHeaders,
    body: Seq<u8>,
    now: i64,
)
    ensures
        request_verdict(false, state, method, path, headers, body, now) == Ok::<(), SignatureError>(
            (),
        ),
{
}

/// With the check enabled, a request passes exactly when its body is within the limit and
/// its signature verdict is acceptance.
pub proof fn law_enabled_check_is_the_signature_verdict(
    state: &SignatureState,
    method: Seq<char>,
    path: Seq<char>,
    headers: &SignatureHeaders,
    body: Seq<u8>,
    now: i64,
)
    ensures
        (request_verdict(true, state, method, path, headers, body, now) == Ok::<(), SignatureError>(
            ()))
            <==> (body.len() <= state.max_body_bytes && verdict(state, method, path, headers, body, now)
            == Ok::<(), SignatureError>(())),
{
}

/// The text with which a refusal is answered.
pub open spec fn error_message(e: SignatureError) -> Seq<char> {
    match e {
        SignatureError::MissingSignature => "Missing x-auth-signature"@,
        SignatureError::MissingTimestamp => "Missing x-auth-timestamp"@,
        SignatureError::InvalidTimestamp => "Invalid x-auth-timestamp"@,
        SignatureError::TimestampSkew => "Timestamp skew exceeds the allowed window"@,
        SignatureError::InvalidSignature => "Invalid signature"@,
        SignatureError::InvalidBody => "invalid request body"@,
    }
}

impl SignatureError {
    /// The text with which the refusal is answered.
    pub fn message(&self) -> (m: String)
        ensures
            m@ == error_message(*self),
    {
        match self {
            SignatureError::MissingSignature => String::from_str("Missing x-auth-signature"),
            SignatureError::MissingTimestamp => String::from_str("Missing x-auth-timestamp"),
            SignatureError::InvalidTimestamp => String::from_str("Invalid x-auth-timestamp"),
            SignatureError::TimestampSkew => String::from_str(
                "Timestamp skew exceeds the allowed window",
            ),
            SignatureError::InvalidSignature => String::from_str("Invalid signature"),
            SignatureError::InvalidBody => String::from_str("invalid request body"),
        }
    }
}

/// `a` followed by `b`.
fn append_bytes(a: &mut Vec<u8>, b: &[u8])
    ensures
        final(a)@ == old(a)@ + b@,
{
    let mut i: usize = 0;
    while i < b.len()
        invariant
            i <= b@.len(),
            a@ == old(a)@ + b@.take(i as int),
        decreases b@.len() - i,
    {
        a.push(b[i]);
        i = i + 1;
        assert(a@ =~= old(a)@ + b@.take(i as int));
    }
    assert(b@.take(b@.len() as int) =~= b@);
}

/// The canonical payload of a request.
pub fn build_canonical_payload(timestamp: &str, method: &str, path: &str, body: &[u8]) -> (p: Vec<u8>)
    ensures
        p@ == canonical_payload(timestamp.spec_bytes(), method.spec_bytes(), path.spec_bytes(), body@),
{
    let mut p: Vec<u8> = Vec::new();
    append_bytes(&mut p, timestamp.as_bytes());
    p.push(10u8);
    let upper = ascii_upper_bytes(method.as_bytes());
    append_bytes(&mut p, upper.as_slice());
    p.push(10u8);
    append_bytes(&mut p, path.as_bytes());
    p.push(10u8);
    append_bytes(&mut p, body);
    assert(p@ =~= canonical_payload(
        timestamp.spec_bytes(),
        method.spec_bytes(),
        path.spec_bytes(),
        body@,
    ));
    p
}

/// The signature that `secret` gives to a request.
pub fn compute_signature(secret: &str, timestamp: &str, method: &str, path: &str, body: &[u8]) -> (s: String)
    ensures
        s@ == expected_signature(secret@, timestamp@, method@, path@, body@),
        s@.len() == 43,
{
    let payload = build_canonical_payload(timestamp, method, path, body);
    let tag = hmac_sha256_tag(secret.as_bytes(), payload.as_slice());
    let s = encode_base64_url_no_pad(tag.as_slice());
    proof {
        lemma_base64_url_no_pad_len(tag@);
    }
    s
}

proof fn lemma_same_bytes_same_chars(a: Seq<char>, b: Seq<char>)
    requires
        encode_utf8(a) == encode_utf8(b),
    ensures
        a == b,
{
    vstd::utf8::encode_utf8_decode_utf8(a);
    vstd::utf8::encode_utf8_decode_utf8(b);
}

impl SignatureState {
    /// The verdict on a request at server time `now` (UNIX seconds), given the signature
    /// `expected` that the secret gives it.
    pub fn check_signature(&self, headers: &SignatureHeaders, now: i64, expected: &str) -> (r:
        Result<(), SignatureError>)
        ensures
            r == verdict_with(self, headers, now, expected@),
    {
        let signature = match &headers.signature {
            None => return Err(SignatureError::MissingSignature),
            Some(s) => s,
        };
        let timestamp = match &headers.timestamp {
            None => return Err(SignatureError::MissingTimestamp),
            Some(t) => t,
        };
        let ts_chars = chars_of(timestamp.as_str());
        let t = match parse_i64(&ts_chars) {
            None => return Err(SignatureError::InvalidTimestamp),
            Some(t) => t,
        };
        let now_wide = now as i128;
        let t_wide = t as i128;
        let gap: i128 = if now_wide >= t_wide {
            now_wide - t_wide
        } else {
            t_wide - now_wide
        };
        if gap > self.max_clock_skew_seconds as i128 {
            return Err(SignatureError::TimestampSkew);
        }
        let same = bytes_equal(signature.as_str().as_bytes(), expected.as_bytes());
        proof {
            if same {
                lemma_same_bytes_same_chars(signature@, expected@);
            }
        }
        if same {
            Ok(())
        } else {
            Err(SignatureError::InvalidSignature)
        }
    }

    /// The verdict on a request at server time `now` (UNIX seconds).
    pub fn verify_signature_at(
        &self,
        method: &str,
        path: &str,
        headers: &SignatureHeaders,
        body: &[u8],
        now: i64,
    ) -> (r: Result<(), SignatureError>)
        ensures
            r == verdict(self, method@, path@, headers, body@, now),
    {
        let expected = match &headers.timestamp {
            Some(timestamp) => compute_signature(
                self.signature_secret.as_str(),
                timestamp.as_str(),
                method,
                path,
                body,
            ),
            None => String::new(),
        };
        self.check_signature(headers, now, expected.as_str())
    }

    /// The verdict on a request now, by the server's clock.
    pub fn verify_signature(
        &self,
        method: &str,
        path: &str,
        headers: &SignatureHeaders,
        body: &[u8],
    ) -> (r: Result<(), SignatureError>)
        ensures
            exists|now: i64| r == verdict(self, method@, path@, headers, body@, now),
    {
        let now = unix_now();
        self.verify_signature_at(method, path, headers, body, now)
    }
}

/// The signature check that guards every API surface, at server time `now`: everything
/// passes where the check is disabled; otherwise a body over the limit is refused, and
/// the rest is left to the signature verdict.
pub fn require_signature_at(
    enabled: bool,
    state: &SignatureState,
    method: &str,
    path: &str,
    headers: &SignatureHeaders,
    body: &[u8],
    now: i64,
) -> (r: Result<(), SignatureError>)
    ensures
        r == request_verdict(enabled, state, method@, path@, headers, body@, now),
{
    if !enabled {
        return Ok(());
    }
    if body.len() > state.max_body_bytes {
        return Err(SignatureError::InvalidBody);
    }
    state.verify_signature_at(method, path, headers, body, now)
}

/// The signature check that guards every API surface, by the server's clock.
pub fn require_signature(
    enabled: bool,
    state: &SignatureState,
    method: &str,
    path: &str,
    headers: &SignatureHeaders,
    body: &[u8],
) -> (r: Result<(), SignatureError>)
    ensures
        exists|now: i64| r == request_verdict(enabled, state, method@, path@, headers, body@, now),
        !enabled ==> r == Ok::<(), SignatureError>(()),
{
    if !enabled {
        assert(request_verdict(enabled, state, method@, path@, headers, body@, 0) == Ok::<
            (),
            SignatureError,
        >(()));
        return Ok(());
    }
    let now = unix_now();
    require_signature_at(enabled, state, method, path, headers, body, now)
}

} // verus!
