//! Envelopes of the reliable message bus: the request the client sends, the
//! challenge its signature covers, and what an answer means.

use vstd::prelude::*;

use crate::codec::{hex_encode, hex_text, md5_compute, md5_digest, random_bytes};
use crate::error::{is_validation, GridError};
use crate::text::{decimal, push_decimal, str_eq};
use vstd::string::StringSliceAdditionalSpecFns;

verus! {

/// A request for `command`.
#[derive(Debug, Clone, PartialEq, Eq)]
pub struct RmbRequest {
    pub command: String,
}

/// An answer without an error.
#[derive(Debug, Clone, PartialEq, Eq)]
pub struct RmbResponse {}

/// An error answer.
#[derive(Debug, Clone, PartialEq, Eq)]
pub struct RmbError {
    pub code: u32,
    pub message: String,
}

/// A twin and, optionally, one of its connections.
#[derive(Debug, Clone, PartialEq, Eq)]
pub struct RmbAddress {
    pub twin: u32,
    pub connection: Option<String>,
}

/// What an envelope carries.
#[derive(Debug, Clone, PartialEq, Eq)]
pub enum Message {
    Request(RmbRequest),
    Response(RmbResponse),
    Error(RmbError),
}

/// The body of an envelope, plain or encrypted.
#[derive(Debug, Clone, PartialEq, Eq)]
pub enum Payload {
    Plain(Vec<u8>),
    Cipher(Vec<u8>),
}

/// One envelope of the message bus.
#[derive(Debug, Clone, PartialEq, Eq)]
pub struct RmbEnvelope {
    pub uid: String,
    pub tags: Option<String>,
    pub timestamp: u64,
    pub expiration: u64,
    pub source: Option<RmbAddress>,
    pub destination: Option<RmbAddress>,
    pub message: Option<Message>,
    pub signature: Option<Vec<u8>>,
    pub schema: Option<String>,
    pub federation: Option<String>,
    pub payload: Option<Payload>,
    pub relays: Vec<String>,
}

/// The schema of every request body.
pub const RMB_SCHEMA: &'static str = "application/json";

/// `String::from_utf8_lossy` of `bytes`: the text they encode, with each
/// invalid sequence replaced.
pub uninterp spec fn utf8_lossy(bytes: Seq<u8>) -> Seq<char>;

/// `String::from_utf8_lossy`: the text `bytes` encode, invalid sequences
/// replaced by U+FFFD; the contract names the result only.
#[verifier::external_body]
fn lossy_text(bytes: &[u8]) -> (r: String)
    ensures
        r@ == utf8_lossy(bytes@),
{
    String::from_utf8_lossy(bytes).into_owned()
}

/// An optional text, or the empty text.
pub open spec fn opt_text(o: Option<String>) -> Seq<char> {
    match o {
        Some(s) => s@,
        None => Seq::empty(),
    }
}

/// The part of the challenge an address adds: the twin's number and its
/// connection.
pub open spec fn address_text(a: Option<RmbAddress>) -> Seq<char> {
    match a {
        Some(x) => decimal(x.twin as nat) + opt_text(x.connection),
        None => Seq::empty(),
    }
}

/// The part of the challenge the message adds: the command of a request,
/// the code and message of an error, nothing for a response.
pub open spec fn message_text(m: Option<Message>) -> Seq<char> {
    match m {
        Some(Message::Request(r)) => r.command@,
        Some(Message::Error(e)) => decimal(e.code as nat) + e.message@,
        _ => Seq::empty(),
    }
}

/// The part of the challenge the payload adds: its bytes read as text.
pub open spec fn payload_text(p: Option<Payload>) -> Seq<char> {
    match p {
        Some(Payload::Plain(b)) => utf8_lossy(b@),
        Some(Payload::Cipher(b)) => utf8_lossy(b@),
        None => Seq::empty(),
    }
}

/// The concatenation of texts.
pub open spec fn joined(ss: Seq<String>) -> Seq<char>
    decreases ss.len(),
{
    if ss.len() == 0 {
        Seq::empty()
    } else {
        joined(ss.drop_last()) + ss.last()@
    }
}

/// The text an envelope's signature covers: uid, tags, timestamp,
/// expiration, source, destination, message, schema, federation, payload and
/// relays, in that order.
pub open spec fn challenge_text(e: RmbEnvelope) -> Seq<char> {
    e.uid@ + opt_text(e.tags) + decimal(e.timestamp as nat) + decimal(e.expiration as nat) + address_text(e.source)
        + address_text(e.destination) + message_text(e.message) + opt_text(e.schema) + opt_text(e.federation)
        + payload_text(e.payload) + joined(e.relays@)
}

fn push_opt(out: &mut String, o: &Option<String>)
    ensures
        final(out)@ == old(out)@ + opt_text(*o),
{
    match o {
        Some(s) => out.append(s.as_str()),
        None => {
            assert(old(out)@ + opt_text(*o) =~= old(out)@);
        },
    }
}

fn push_address(out: &mut String, a: &Option<RmbAddress>)
    ensures
        final(out)@ == old(out)@ + address_text(*a),
{
    match a {
        Some(x) => {
            push_decimal(out, x.twin as u64);
            push_opt(out, &x.connection);
            assert(final(out)@ =~= old(out)@ + address_text(*a));
        },
        None => {
            assert(old(out)@ + address_text(*a) =~= old(out)@);
        },
    }
}

/// The MD5 digest of an envelope's challenge text, which its signature signs.
pub fn envelope_challenge(envelope: &RmbEnvelope) -> (r: Result<Vec<u8>, GridError>)
    ensures
        r matches Ok(b) && b@ == md5_digest(vstd::utf8::encode_utf8(challenge_text(*envelope))),
{
    let mut challenge = String::from_str(envelope.uid.as_str());
    push_opt(&mut challenge, &envelope.tags);
    push_decimal(&mut challenge, envelope.timestamp);
    push_decimal(&mut challenge, envelope.expiration);
    push_address(&mut challenge, &envelope.source);
    push_address(&mut challenge, &envelope.destination);
    let ghost before_message = challenge@;
    match &envelope.message {
        Some(Message::Request(request)) => challenge.append(request.command.as_str()),
        Some(Message::Error(error)) => {
            push_decimal(&mut challenge, error.code as u64);
            challenge.append(error.message.as_str());
        },
        _ => {},
    }
    assert(challenge@ =~= before_message + message_text(envelope.message));
    push_opt(&mut challenge, &envelope.schema);
    push_opt(&mut challenge, &envelope.federation);
    let ghost before_payload = challenge@;
    match &envelope.payload {
        Some(Payload::Plain(bytes)) => {
            let t = lossy_text(bytes.as_slice());
            challenge.append(t.as_str());
        },
        Some(Payload::Cipher(bytes)) => {
            let t = lossy_text(bytes.as_slice());
            challenge.append(t.as_str());
        },
        None => {},
    }
    assert(challenge@ =~= before_payload + payload_text(envelope.payload));
    let ghost before_relays = challenge@;
    let mut i: usize = 0;
    while i < envelope.relays.len()
        invariant
            i <= envelope.relays@.len(),
            challenge@ == before_relays + joined(envelope.relays@.take(i as int)),
        decreases envelope.relays.len() - i,
    {
        challenge.append(envelope.relays[i].as_str());
        proof {
            assert(envelope.relays@.take(i + 1).drop_last() =~= envelope.relays@.take(i as int));
        }
        i = i + 1;
    }
    assert(envelope.relays@.take(envelope.relays@.len() as int) =~= envelope.relays@);
    assert(challenge@ =~= challenge_text(*envelope));
    Ok(md5_compute(challenge.as_str().as_bytes()))
}

/// What a request names: who sends it, to whom, and what.
#[derive(Debug, Clone)]
pub struct RequestParts {
    pub uid: String,
    pub now: u64,
    pub ttl: u64,
    pub own_twin: u32,
    pub session_id: String,
    pub destination_twin: u32,
    pub destination_session: Option<String>,
    pub command: String,
    pub federation: Option<String>,
    pub body: Vec<u8>,
    pub relays: Vec<String>,
}

/// The unsigned envelope of a request: from the client's own twin and
/// session to the destination, with the JSON schema and a plain body.
pub fn request_envelope(parts: RequestParts) -> (r: RmbEnvelope)
    ensures
        r.uid == parts.uid,
        r.tags is None,
        r.timestamp == parts.now,
        r.expiration == parts.ttl,
        r.source == Some(RmbAddress { twin: parts.own_twin, connection: Some(parts.session_id) }),
        r.destination == Some(RmbAddress { twin: parts.destination_twin, connection: parts.destination_session }),
        r.message == Some(Message::Request(RmbRequest { command: parts.command })),
        r.signature is None,
        r.schema matches Some(s) && s@ == RMB_SCHEMA@,
        r.federation == parts.federation,
        r.payload == Some(Payload::Plain(parts.body)),
        r.relays == parts.relays,
{
    RmbEnvelope {
        uid: parts.uid,
        tags: None,
        timestamp: parts.now,
        expiration: parts.ttl,
        source: Some(RmbAddress { twin: parts.own_twin, connection: Some(parts.session_id) }),
        destination: Some(RmbAddress { twin: parts.destination_twin, connection: parts.destination_session }),
        message: Some(Message::Request(RmbRequest { command: parts.command })),
        signature: None,
        schema: Some(String::from_str(RMB_SCHEMA)),
        federation: parts.federation,
        payload: Some(Payload::Plain(parts.body)),
        relays: parts.relays,
    }
}

/// Stores a signature typed as sr25519: the byte `s` before it.
pub fn set_envelope_signature(envelope: &mut RmbEnvelope, signature: &[u8])
    ensures
        final(envelope).signature matches Some(s) && s@ == seq![115u8] + signature@,
        *final(envelope) == (RmbEnvelope { signature: final(envelope).signature, ..*old(envelope) }),
{
    let mut typed: Vec<u8> = Vec::new();
    typed.push(115u8);
    let mut i: usize = 0;
    while i < signature.len()
        invariant
            i <= signature@.len(),
            typed@ == seq![115u8] + signature@.take(i as int),
        decreases signature.len() - i,
    {
        typed.push(signature[i]);
        proof {
            assert(signature@.take(i + 1) =~= signature@.take(i as int).push(signature@[i as int]));
        }
        i = i + 1;
    }
    assert(signature@.take(signature@.len() as int) =~= signature@);
    envelope.signature = Some(typed);
}

/// What an envelope read from the relay means for a waiting request.
#[derive(Debug)]
pub enum ResponseStep {
    /// Another request's answer: keep reading.
    Skip,
    /// An error answer.
    Fail(GridError),
    /// A plain body.
    Plain(Vec<u8>),
    /// An encrypted body from `source_twin`.
    Cipher { source_twin: u32, bytes: Vec<u8> },
    /// An answer without a body.
    Missing,
}

/// The meaning of an envelope for the request `uid` sent to
/// `destination_twin`: answers to other requests are skipped, error answers
/// fail with their message, bodies are handed over (an encrypted one with the
/// twin that sent it, the destination when the envelope names none). An
/// answer without a body is waited past until `timed_out`, then it fails.
pub fn response_step(response: RmbEnvelope, uid: &str, destination_twin: u32, timed_out: bool) -> (r: ResponseStep)
    ensures
        response.uid@ != uid@ ==> r is Skip,
        response.uid@ == uid@ ==> match response.message {
            Some(Message::Error(e)) => r matches ResponseStep::Fail(GridError::Backend(m)) && m@ == e.message@,
            _ => match response.payload {
                Some(Payload::Plain(b)) => r == ResponseStep::Plain(b),
                Some(Payload::Cipher(b)) => r == (ResponseStep::Cipher {
                    source_twin: match response.source {
                        Some(a) => a.twin,
                        None => destination_twin,
                    },
                    bytes: b,
                }),
                None => if timed_out {
                    r matches ResponseStep::Fail(GridError::Backend(m)) && m@ == "rmb response missing payload"@
                } else {
                    r is Missing
                },
            },
        },
{
    if !str_eq(response.uid.as_str(), uid) {
        return ResponseStep::Skip;
    }
    if let Some(Message::Error(error)) = response.message {
        return ResponseStep::Fail(GridError::Backend(error.message));
    }
    let source_twin = match &response.source {
        Some(a) => a.twin,
        None => destination_twin,
    };
    match response.payload {
        Some(Payload::Plain(bytes)) => ResponseStep::Plain(bytes),
        Some(Payload::Cipher(bytes)) => ResponseStep::Cipher { source_twin, bytes },
        None => if timed_out {
            ResponseStep::Fail(GridError::Backend(String::from_str("rmb response missing payload")))
        } else {
            ResponseStep::Missing
        },
    }
}

/// The host of `url` as the `url` crate parses it; `None` when it does not
/// parse or has no host.
pub uninterp spec fn url_host(url: Seq<char>) -> Option<Seq<char>>;

/// `url::Url::parse` followed by `host_str`: the host of the parsed URL.
/// Only that the result is the host named by [`url_host`] is claimed.
#[verifier::external_body]
fn parsed_host(url: &str) -> (r: Option<String>)
    ensures
        match url_host(url@) {
            Some(h) => r matches Some(s) && s@ == h,
            None => r is None,
        },
{
    match url::Url::parse(url) {
        Ok(u) => u.host_str().map(String::from),
        Err(_) => None,
    }
}

/// The message of a relay URL without a host.
pub open spec fn invalid_relay_message(url: Seq<char>) -> Seq<char> {
    "invalid relay url "@ + url
}

/// The host of the relay URL, which the client's twin must name as its
/// relay; a validation error when the URL has none.
pub fn relay_host(relay_url: &str) -> (r: Result<String, GridError>)
    ensures
        match url_host(relay_url@) {
            Some(h) => r matches Ok(s) && s@ == h,
            None => r matches Err(e) && is_validation(e, invalid_relay_message(relay_url@)),
        },
{
    match parsed_host(relay_url) {
        Some(h) => Ok(h),
        None => {
            let mut msg = String::from_str("invalid relay url ");
            msg.append(relay_url);
            Err(GridError::Validation(msg))
        },
    }
}

/// A fresh request or session id: 16 random bytes written as 32 lower-case
/// hex digits.
pub fn random_uid() -> (r: String)
    ensures
        exists|b: Seq<u8>| b.len() == 16 && r@ == hex_text(b),
{
    let bytes = random_bytes(16);
    let r = hex_encode(bytes.as_slice());
    assert(bytes@.len() == 16 && r@ == hex_text(bytes@));
    r
}

} // verus!
