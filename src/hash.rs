//! The client-secret hash: HMAC-SHA256 over the username's bytes followed by
//! the client id's bytes, keyed by the client secret's bytes, as base64 text.
use hmac::Mac;
use vstd::prelude::*;
use vstd::slice::slice_to_vec;
use vstd::string::StringExecFns;
use vstd::utf8::{encode_utf8, encode_utf8_decode_utf8};

use crate::config::Config;
use crate::encoding::{base64_of, base64_decode, encode_base64, lemma_base64_round_trip, lemma_utf8_concat};

verus! {

/// The 32-byte HMAC-SHA256 tag (FIPS 198-1) of `msg` under the key `key`.
pub uninterp spec fn hmac_sha256_of(key: Seq<u8>, msg: Seq<u8>) -> Seq<u8>;

/// Relies on hmac::Hmac<sha2::Sha256> (hmac 0.7, sha2 0.8): `new_varkey`
/// accepts a key of any length, empty included, and `result().code()` is the
/// 32-byte tag of what `input` was given.
#[verifier::external_body]
fn hmac_sha256(key: &[u8], msg: &[u8]) -> (r: Vec<u8>)
    ensures
        r@ == hmac_sha256_of(key@, msg@),
        r@.len() == 32,
{
    let mut mac = hmac::Hmac::<sha2::Sha256>::new_varkey(key).expect("any key length");
    mac.input(msg);
    mac.result().code().to_vec()
}

/// The message that is authenticated: the username's UTF-8 bytes, then the
/// client id's, with no separator.
pub open spec fn message_of(username: Seq<char>, client_id: Seq<char>) -> Seq<u8> {
    encode_utf8(username) + encode_utf8(client_id)
}

/// The hash for a username and a client's id and secret.
pub open spec fn secret_hash(username: Seq<char>, client_id: Seq<char>, client_secret: Seq<char>) -> Seq<char> {
    base64_of(hmac_sha256_of(encode_utf8(client_secret), message_of(username, client_id)))
}

/// The message that is authenticated for `username` and `client_id`: the
/// bytes of the one, then of the other.
pub fn message_bytes(username: &str, client_id: &str) -> (r: Vec<u8>)
    ensures
        r@ == message_of(username@, client_id@),
{
    let mut message = String::from_str(username);
    message.append(client_id);
    proof {
        lemma_utf8_concat(username@, client_id@);
    }
    slice_to_vec(message.as_str().as_bytes())
}

/// The text that a digest is rendered as: its standard base64, which decodes
/// back to the digest.
pub fn digest_to_base64(tag: &[u8]) -> (r: String)
    ensures
        r@ == base64_of(tag@),
        base64_decode(r@) == tag@,
{
    proof {
        lemma_base64_round_trip(tag@);
    }
    encode_base64(tag)
}

/// Computes the client-secret hash of `username` with the credentials
/// `creds`. The result depends on the three texts alone; any secret is a
/// valid key, the empty one included; the text decodes to the 32-byte tag.
pub fn compute(username: &str, creds: &Config) -> (r: String)
    ensures
        r@ == secret_hash(username@, creds.client_id@, creds.client_secret@),
        base64_decode(r@) == hmac_sha256_of(encode_utf8(creds.client_secret@), message_of(username@, creds.client_id@)),
        base64_decode(r@).len() == 32,
{
    let msg = message_bytes(username, creds.client_id.as_str());
    let key = creds.client_secret.as_str().as_bytes();
    let tag = hmac_sha256(key, msg.as_slice());
    digest_to_base64(tag.as_slice())
}

/// Two computations of the hash on the same username, client id and client
/// secret give the same text.
pub proof fn lemma_hash_deterministic(
    username: Seq<char>,
    client_id: Seq<char>,
    client_secret: Seq<char>,
    first: Seq<char>,
    second: Seq<char>,
)
    requires
        first == secret_hash(username, client_id, client_secret),
        second == secret_hash(username, client_id, client_secret),
    ensures
        first == second,
{
}

/// With an empty client secret the hash is the HMAC-SHA256 tag under the
/// zero-length key.
pub proof fn lemma_empty_secret(username: Seq<char>, client_id: Seq<char>)
    ensures
        secret_hash(username, client_id, Seq::empty()) == base64_of(
            hmac_sha256_of(Seq::empty(), message_of(username, client_id)),
        ),
{
    assert(encode_utf8(Seq::<char>::empty()) == Seq::<u8>::empty());
}

/// Swapping the username and the client id changes the message that is
/// authenticated, unless the two texts commute (`u + c == c + u`, as when
/// they are equal).
pub proof fn lemma_swap_changes_message(username: Seq<char>, client_id: Seq<char>)
    requires
        username + client_id != client_id + username,
    ensures
        message_of(username, client_id) != message_of(client_id, username),
{
    lemma_utf8_concat(username, client_id);
    lemma_utf8_concat(client_id, username);
    encode_utf8_decode_utf8(username + client_id);
    encode_utf8_decode_utf8(client_id + username);
}

} // verus!
