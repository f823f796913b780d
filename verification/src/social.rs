//! Signed social posts: the bytes a post's signature covers, signing and verifying.
use vstd::prelude::*;
use crate::gateway::{opt_view, str_views};
use crate::time::{Timestamp, rfc3339_text, to_rfc3339};

verus! {

/// Length of an Ed25519 signature, in bytes.
pub const SIGNATURE_LEN: usize = 64;

/// A post as exchanged between peers.
#[derive(Debug)]
pub struct Post {
    pub cid: String,
    pub author: String,
    pub content: String,
    pub media: Vec<String>,
    pub parent: Option<String>,
    pub reply_count: u32,
    pub like_count: u32,
    pub timestamp: Timestamp,
    pub signature: Vec<u8>,
}

/// The compact JSON text, as `serde_json` writes it, of the object with the keys `author`,
/// `content`, `media`, `parent` (null when absent) and `timestamp`, in that order.
pub uninterp spec fn signing_json(
    author: Seq<char>,
    content: Seq<char>,
    media: Seq<Seq<char>>,
    parent: Option<Seq<char>>,
    timestamp: Seq<char>,
) -> Seq<u8>;

/// `serde_json::to_vec` of the JSON object built from these values; it depends on them alone,
/// and, as JSON writes every string and array element out in full and escapes uniquely, no
/// other values give the same bytes.
#[verifier::external_body]
fn json_payload(author: &str, content: &str, media: &Vec<String>, parent: &Option<String>, timestamp: &str) -> (r: Vec<u8>)
    ensures
        r@ == signing_json(author@, content@, str_views(media@), opt_view(*parent), timestamp@),
        forall|a: Seq<char>, c: Seq<char>, m: Seq<Seq<char>>, p: Option<Seq<char>>, t: Seq<char>|
            #[trigger] signing_json(a, c, m, p, t) == r@ ==> a == author@ && c == content@ && m == str_views(media@)
                && p == opt_view(*parent) && t == timestamp@,
{
    let mut m = serde_json::Map::new();
    m.insert("author".to_string(), serde_json::Value::from(author));
    m.insert("content".to_string(), serde_json::Value::from(content));
    m.insert("media".to_string(), serde_json::Value::from(media.clone()));
    m.insert("parent".to_string(), serde_json::Value::from(parent.clone()));
    m.insert("timestamp".to_string(), serde_json::Value::from(timestamp));
    serde_json::to_vec(&serde_json::Value::Object(m)).unwrap_or_default()
}

/// The Ed25519 signature of `msg` by the signing key with secret bytes `secret`.
pub uninterp spec fn ed25519_signature(secret: Seq<u8>, msg: Seq<u8>) -> Seq<u8>;
/// The public key bytes of the signing key with secret bytes `secret`.
pub uninterp spec fn ed25519_public_key(secret: Seq<u8>) -> Seq<u8>;
/// `sig` is a valid Ed25519 signature of `msg` under the public key with bytes `public`.
pub uninterp spec fn ed25519_verifies(public: Seq<u8>, msg: Seq<u8>, sig: Seq<u8>) -> bool;

/// `ed25519_dalek::SigningKey::sign`: the 64-byte signature, which depends on the key and
/// message alone and verifies under the key's public key.
#[verifier::external_body]
fn ed25519_sign(secret: &[u8; 32], msg: &[u8]) -> (sig: Vec<u8>)
    ensures
        sig@ == ed25519_signature(secret@, msg@),
        sig@.len() == SIGNATURE_LEN,
        ed25519_verifies(ed25519_public_key(secret@), msg@, sig@),
{
    ed25519_dalek::Signer::sign(&ed25519_dalek::SigningKey::from_bytes(secret), msg).to_bytes().to_vec()
}

/// `ed25519_dalek::SigningKey::verifying_key` of the key with secret bytes `secret`, as
/// the 32 bytes of its encoding.
#[verifier::external_body]
fn ed25519_public_key_of(secret: &[u8; 32]) -> (pk: [u8; 32])
    ensures
        pk@ == ed25519_public_key(secret@),
{
    ed25519_dalek::SigningKey::from_bytes(secret).verifying_key().to_bytes()
}

/// The public key bytes of the Ed25519 signing key whose secret bytes are `secret`: the
/// key under which the posts it signs verify.
pub fn public_key_of(secret: &[u8; 32]) -> (pk: [u8; 32])
    ensures
        pk@ == ed25519_public_key(secret@),
{
    ed25519_public_key_of(secret)
}

/// `ed25519_dalek::VerifyingKey::verify` of a signature; `false` as well when `public`
/// is not the encoding of a valid public key.
#[verifier::external_body]
fn ed25519_verify(public: &[u8; 32], msg: &[u8], sig: &[u8; 64]) -> (ok: bool)
    ensures
        ok == ed25519_verifies(public@, msg@, sig@),
{
    match ed25519_dalek::VerifyingKey::from_bytes(public) {
        Ok(k) => ed25519_dalek::Verifier::verify(&k, msg, &ed25519_dalek::Signature::from_bytes(sig)).is_ok(),
        Err(_) => false,
    }
}

/// The bytes that a post's signature covers: its author, content, media, parent and the
/// RFC 3339 text of its timestamp; neither its id, counters nor signature.
pub open spec fn payload_of(
    author: Seq<char>,
    content: Seq<char>,
    media: Seq<Seq<char>>,
    parent: Option<Seq<char>>,
    timestamp: Timestamp,
) -> Seq<u8> {
    signing_json(author, content, media, parent, rfc3339_text(timestamp.secs, timestamp.nanos))
}

impl Post {
    /// The bytes that the post's signature covers.
    pub open spec fn spec_payload(&self) -> Seq<u8> {
        payload_of(self.author@, self.content@, str_views(self.media@), opt_view(self.parent), self.timestamp)
    }

    /// The bytes that the post's signature covers: they cover its author, content, media,
    /// parent and time, so a post that differs in any of these has other bytes.
    pub fn to_signing_payload(&self) -> (bytes: Vec<u8>)
        requires
            self.timestamp.valid(),
        ensures
            bytes@ == self.spec_payload(),
            forall|a: Seq<char>, c: Seq<char>, m: Seq<Seq<char>>, p: Option<Seq<char>>, t: Timestamp|
                #[trigger] payload_of(a, c, m, p, t) == bytes@ ==> a == self.author@ && c == self.content@ && m
                    == str_views(self.media@) && p == opt_view(self.parent) && rfc3339_text(t.secs, t.nanos)
                    == rfc3339_text(self.timestamp.secs, self.timestamp.nanos),
            forall|p: Option<Seq<char>>|
                p != opt_view(self.parent) ==> #[trigger] payload_of(
                    self.author@,
                    self.content@,
                    str_views(self.media@),
                    p,
                    self.timestamp,
                ) != bytes@,
    {
        let ts = to_rfc3339(self.timestamp);
        json_payload(self.author.as_str(), self.content.as_str(), &self.media, &self.parent, ts.as_str())
    }

    /// Signs the post with the Ed25519 key whose secret bytes are `signing_key`; the post
    /// then checks under `public_key_of(signing_key)`.
    pub fn sign_with(&mut self, signing_key: &[u8; 32])
        requires
            old(self).timestamp.valid(),
        ensures
            final(self).signature@ == ed25519_signature(signing_key@, old(self).spec_payload()),
            final(self).cid == old(self).cid,
            final(self).author == old(self).author,
            final(self).content == old(self).content,
            final(self).media == old(self).media,
            final(self).parent == old(self).parent,
            final(self).reply_count == old(self).reply_count,
            final(self).like_count == old(self).like_count,
            final(self).timestamp == old(self).timestamp,
            final(self).spec_payload() == old(self).spec_payload(),
            final(self).signature@.len() == SIGNATURE_LEN,
            ed25519_verifies(ed25519_public_key(signing_key@), final(self).spec_payload(), final(self).signature@),
            final(self).signature_checks(ed25519_public_key(signing_key@)),
    {
        let payload = self.to_signing_payload();
        let sig = ed25519_sign(signing_key, payload.as_slice());
        self.signature = sig;
    }

    /// The post carries a 64-byte signature of its payload that verifies under the public
    /// key with bytes `public`.
    pub open spec fn signature_checks(&self, public: Seq<u8>) -> bool {
        self.signature@.len() == SIGNATURE_LEN && ed25519_verifies(public, self.spec_payload(), self.signature@)
    }

    /// Whether the post carries a valid signature of its payload under the Ed25519 public
    /// key with bytes `public_key`; a signature that is not 64 bytes long is invalid.
    pub fn verify_signature(&self, public_key: &[u8; 32]) -> (ok: bool)
        requires
            self.timestamp.valid(),
        ensures
            ok == self.signature_checks(public_key@),
    {
        if self.signature.len() != SIGNATURE_LEN {
            return false;
        }
        let mut sig = [0u8; 64];
        for i in 0..SIGNATURE_LEN
            invariant
                self.signature@.len() == SIGNATURE_LEN,
                forall|j: int| 0 <= j < i ==> sig@[j] == self.signature@[j],
        {
            sig[i] = self.signature[i];
        }
        assert(sig@ =~= self.signature@);
        let payload = self.to_signing_payload();
        ed25519_verify(public_key, payload.as_slice(), &sig)
    }
}

/// Law: a post as `sign_with(secret)` leaves it checks under the signer's public key
/// (`public_key_of(secret)`), and so does every post that differs from it only in its
/// content id or its counters.
pub proof fn law_signed_post_verifies(signed: Post, other: Post, secret: Seq<u8>)
    requires
        signed.signature@.len() == SIGNATURE_LEN,
        ed25519_verifies(ed25519_public_key(secret), signed.spec_payload(), signed.signature@),
        other.author == signed.author,
        other.content == signed.content,
        other.media == signed.media,
        other.parent == signed.parent,
        other.timestamp == signed.timestamp,
        other.signature == signed.signature,
    ensures
        signed.signature_checks(ed25519_public_key(secret)),
        other.signature_checks(ed25519_public_key(secret)),
{
}

/// Law: a post whose signature is not 64 bytes long checks under no key.
pub proof fn law_short_signature_never_checks(p: Post, public: Seq<u8>)
    requires
        p.signature@.len() != SIGNATURE_LEN,
    ensures
        !p.signature_checks(public),
{
}

} // verus!
