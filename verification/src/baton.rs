//! Batons: the tokens with which a client resumes a stream.
//!
//! A baton is the text form of 16 bytes and their MAC: the number of the
//! stream and the sequence number of the baton, each in 8 bytes,
//! little-endian. The MAC is made with a key that only the server knows.

use vstd::prelude::*;
use vstd::bytes::*;
use vstd::slice::*;
use crate::error::StreamError;

verus! {

/// How many bytes of a baton stand before its MAC.
pub const BATON_PAYLOAD_SIZE: usize = 16;

/// The MAC of `payload` under `key`.
pub uninterp spec fn baton_mac(key: Seq<u8>, payload: Seq<u8>) -> Seq<u8>;

/// The text form of bytes.
pub uninterp spec fn base64_text(bytes: Seq<u8>) -> Seq<char>;

/// The bytes that a text is the form of, if it is the form of any.
pub uninterp spec fn base64_bytes(text: Seq<char>) -> Option<Seq<u8>>;

/// HMAC-SHA256 of the `hmac` and `sha2` crates (`Mac::new_from_slice`,
/// `Mac::update`, `Mac::finalize`): the code of `payload` under `key`, which
/// depends on these two alone and has 32 bytes. HMAC takes a key of any
/// length.
#[verifier::external_body]
fn compute_mac(key: &[u8], payload: &[u8]) -> (mac: Vec<u8>)
    ensures
        mac@ == baton_mac(key@, payload@),
        mac@.len() == 32,
{
    let mut mac = <hmac::Hmac<sha2::Sha256> as hmac::Mac>::new_from_slice(key).unwrap();
    hmac::Mac::update(&mut mac, payload);
    hmac::Mac::finalize(mac).into_bytes().to_vec()
}

/// `Engine::encode` of the `base64` crate, with the URL-safe alphabet and
/// without padding: the text form of the bytes, which decodes to them again.
/// The length of the text overflows only from three quarters of `usize::MAX`
/// bytes on, which no slice holds.
#[verifier::external_body]
fn encode_base64(bytes: &[u8]) -> (text: String)
    ensures
        text@ == base64_text(bytes@),
        base64_bytes(text@) == Some(bytes@),
{
    base64::Engine::encode(&base64::engine::general_purpose::URL_SAFE_NO_PAD, bytes)
}

/// `Engine::decode` of the `base64` crate, with the URL-safe alphabet and
/// without padding: the bytes that the text is the form of, or nothing where
/// it is the form of none.
#[verifier::external_body]
fn decode_base64(text: &str) -> (bytes: Option<Vec<u8>>)
    ensures
        bytes is Some <==> base64_bytes(text@) is Some,
        bytes matches Some(b) ==> base64_bytes(text@) == Some(b@),
{
    base64::Engine::decode(&base64::engine::general_purpose::URL_SAFE_NO_PAD, text).ok()
}

/// `rand::random`: 32 bytes of the thread's random number generator. Nothing
/// is known of them.
#[verifier::external_body]
fn random_key() -> (key: [u8; 32]) {
    rand::random::<[u8; 32]>()
}

/// The bytes of a baton that its MAC covers.
pub open spec fn baton_payload(stream_id: u64, seq: u64) -> Seq<u8> {
    spec_u64_to_le_bytes(stream_id) + spec_u64_to_le_bytes(seq)
}

/// The text of the baton for the stream `stream_id` with the sequence number
/// `seq`, under the key `key`.
pub open spec fn baton_text(key: Seq<u8>, stream_id: u64, seq: u64) -> Seq<char> {
    base64_text(baton_payload(stream_id, seq) + baton_mac(key, baton_payload(stream_id, seq)))
}

/// What a text says as a baton under the key `key`: the stream and the
/// sequence number. It is no baton where it is the text form of no bytes,
/// holds less than the two numbers, or carries another MAC than the server's
/// for them.
pub open spec fn baton_of(key: Seq<u8>, text: Seq<char>) -> Option<(u64, u64)> {
    match base64_bytes(text) {
        None => None,
        Some(data) => if data.len() < BATON_PAYLOAD_SIZE {
            None
        } else if data.subrange(BATON_PAYLOAD_SIZE as int, data.len() as int) != baton_mac(
            key,
            data.subrange(0, BATON_PAYLOAD_SIZE as int),
        ) {
            None
        } else {
            Some(
                (
                    spec_u64_from_le_bytes(data.subrange(0, 8)),
                    spec_u64_from_le_bytes(data.subrange(8, 16)),
                ),
            )
        },
    }
}

/// The stream that a baton names.
pub open spec fn named_stream(key: Seq<u8>, text: Seq<char>) -> u64
    recommends
        baton_of(key, text) is Some,
{
    match baton_of(key, text) {
        Some((stream_id, _)) => stream_id,
        None => 0,
    }
}

/// The sequence number that a baton carries.
pub open spec fn named_seq(key: Seq<u8>, text: Seq<char>) -> u64
    recommends
        baton_of(key, text) is Some,
{
    match baton_of(key, text) {
        Some((_, seq)) => seq,
        None => 0,
    }
}

/// Whether two byte strings are the same, found in a time that depends on
/// their lengths alone.
pub fn same_bytes(a: &[u8], b: &[u8]) -> (same: bool)
    ensures
        same == (a@ == b@),
{
    let n: usize = a.len();
    if n != b.len() {
        return false;
    }
    let mut diff: u8 = 0;
    let mut i: usize = 0;
    while i < n
        invariant
            i <= n,
            n == a@.len(),
            n == b@.len(),
            diff == 0 <==> (forall|k: int| 0 <= k < i ==> a@[k] == b@[k]),
        decreases n - i,
    {
        let x: u8 = a[i];
        let y: u8 = b[i];
        let ghost before = diff;
        diff = diff | (x ^ y);
        assert((before | (x ^ y)) == 0 <==> (before == 0 && x == y)) by (bit_vector);
        i += 1;
    }
    if diff == 0 {
        assert(a@ =~= b@);
        true
    } else {
        false
    }
}

/// The secret of a server, with which it marks its batons.
#[derive(Debug)]
pub struct BatonKey {
    key: [u8; 32],
}

impl BatonKey {
    /// The bytes of the key.
    pub closed spec fn bytes(&self) -> Seq<u8> {
        self.key@
    }

    /// A key of 32 bytes, drawn at random. Which bytes they are, nobody
    /// knows beforehand.
    pub fn generate() -> (key: BatonKey)
        ensures
            key.bytes().len() == 32,
    {
        BatonKey { key: random_key() }
    }

    /// The key with the given bytes.
    pub fn from_bytes(key: [u8; 32]) -> (r: BatonKey)
        ensures
            r.bytes() == key@,
    {
        BatonKey { key }
    }

    /// The text of the baton for the stream `stream_id` with the sequence
    /// number `seq`. The server reads it as that baton again.
    pub fn encode(&self, stream_id: u64, seq: u64) -> (text: String)
        ensures
            text@ == baton_text(self.bytes(), stream_id, seq),
            baton_of(self.bytes(), text@) == Some((stream_id, seq)),
    {
        let mut data: Vec<u8> = u64_to_le_bytes(stream_id);
        let mut seq_bytes: Vec<u8> = u64_to_le_bytes(seq);
        data.append(&mut seq_bytes);
        assert(data@ =~= baton_payload(stream_id, seq));
        let mut mac: Vec<u8> = compute_mac(self.key.as_slice(), data.as_slice());
        let ghost payload = data@;
        let ghost code = mac@;
        data.append(&mut mac);
        let text = encode_base64(data.as_slice());
        proof {
            lemma_auto_spec_u64_to_from_le_bytes();
            let all = data@;
            assert(all.subrange(0, BATON_PAYLOAD_SIZE as int) =~= payload);
            assert(all.subrange(BATON_PAYLOAD_SIZE as int, all.len() as int) =~= code);
            assert(all.subrange(0, 8) =~= spec_u64_to_le_bytes(stream_id));
            assert(all.subrange(8, 16) =~= spec_u64_to_le_bytes(seq));
        }
        text
    }

    /// Reads a text as a baton of this server: the stream and the sequence
    /// number that it names.
    pub fn decode(&self, text: &str) -> (r: Result<(u64, u64), StreamError>)
        ensures
            r == match baton_of(self.bytes(), text@) {
                Some(named) => Ok::<(u64, u64), StreamError>(named),
                None => Err(StreamError::BatonInvalid),
            },
    {
        let data = match decode_base64(text) {
            Some(data) => data,
            None => {
                return Err(StreamError::BatonInvalid);
            },
        };
        if data.len() < BATON_PAYLOAD_SIZE {
            return Err(StreamError::BatonInvalid);
        }
        let payload = slice_subrange(data.as_slice(), 0, BATON_PAYLOAD_SIZE);
        let received = slice_subrange(data.as_slice(), BATON_PAYLOAD_SIZE, data.len());
        let expected = compute_mac(self.key.as_slice(), payload);
        if !same_bytes(received, expected.as_slice()) {
            return Err(StreamError::BatonInvalid);
        }
        let stream_id: u64 = u64_from_le_bytes(slice_subrange(payload, 0, 8));
        let seq: u64 = u64_from_le_bytes(slice_subrange(payload, 8, 16));
        proof {
            assert(payload@.subrange(0, 8) =~= data@.subrange(0, 8));
            assert(payload@.subrange(8, 16) =~= data@.subrange(8, 16));
        }
        Ok((stream_id, seq))
    }
}

} // verus!
