//! The authorization token: decoding and authenticated decryption of the
//! fetched payload, and the write-once cache that holds the result.
use aes_gcm::aead::{Aead, KeyInit};
use vstd::prelude::*;

use crate::addr::{base64_decoded, bytes_view};

verus! {

/// Length of the AES-256 key in bytes.
pub const AES_KEY_LEN: usize = 32;

/// Length of the AES-GCM nonce in bytes.
pub const NONCE_LEN: usize = 12;

/// The two fields of the auth service's answer, still base64 text.
#[derive(Clone, Debug)]
pub struct AuthFields {
    pub iv: String,
    pub encrypted_auth_token: String,
}

/// Which step of the token bootstrap failed.
#[derive(Clone, Copy, Debug, PartialEq, Eq, Structural)]
pub enum AuthError {
    Connect,
    Json,
    DecodeIv,
    DecodeCipherText,
    Decrypt,
    Utf8,
}

/// The message shown for each failed step.
pub open spec fn auth_error_text(e: AuthError) -> Seq<char> {
    match e {
        AuthError::Connect => "Cannot connect to Auth API!"@,
        AuthError::Json => "Cannot deserialize JSON!"@,
        AuthError::DecodeIv => "Cannot decode IV!"@,
        AuthError::DecodeCipherText => "Cannot decode cipher text!"@,
        AuthError::Decrypt => "Cannot decrypt token!"@,
        AuthError::Utf8 => "Cannot convert token to string!"@,
    }
}

impl AuthError {
    /// A readable message naming the step that failed.
    pub fn message(&self) -> (r: String)
        ensures
            r@ == auth_error_text(*self),
    {
        match self {
            AuthError::Connect => {
                proof { reveal_strlit("Cannot connect to Auth API!"); }
                String::from_str("Cannot connect to Auth API!")
            },
            AuthError::Json => {
                proof { reveal_strlit("Cannot deserialize JSON!"); }
                String::from_str("Cannot deserialize JSON!")
            },
            AuthError::DecodeIv => {
                proof { reveal_strlit("Cannot decode IV!"); }
                String::from_str("Cannot decode IV!")
            },
            AuthError::DecodeCipherText => {
                proof { reveal_strlit("Cannot decode cipher text!"); }
                String::from_str("Cannot decode cipher text!")
            },
            AuthError::Decrypt => {
                proof { reveal_strlit("Cannot decrypt token!"); }
                String::from_str("Cannot decrypt token!")
            },
            AuthError::Utf8 => {
                proof { reveal_strlit("Cannot convert token to string!"); }
                String::from_str("Cannot convert token to string!")
            },
        }
    }
}

/// What AES-256-GCM gives for `ciphertext` (tag appended) under `key` and
/// `nonce`: the plaintext, or `None` when the tag does not verify.
pub uninterp spec fn aes256gcm_opened(key: Seq<u8>, nonce: Seq<u8>, ciphertext: Seq<u8>) -> Option<
    Seq<u8>,
>;

/// The text that `bytes` encode as UTF-8, or `None` when they are not UTF-8.
pub uninterp spec fn utf8_decoded(bytes: Seq<u8>) -> Option<Seq<char>>;

/// Relies on aes-gcm's `Aes256Gcm::decrypt`: the plaintext when the
/// authentication tag verifies; the result depends on the arguments alone.
/// `Key::from_slice` and `Nonce::from_slice` panic on other lengths.
#[verifier::external_body]
fn aes_open(key: &Vec<u8>, nonce: &Vec<u8>, ciphertext: &Vec<u8>) -> (r: Option<Vec<u8>>)
    requires
        key@.len() == AES_KEY_LEN,
        nonce@.len() == NONCE_LEN,
    ensures
        bytes_view(r) == aes256gcm_opened(key@, nonce@, ciphertext@),
{
    let cipher = aes_gcm::Aes256Gcm::new(aes_gcm::Key::<aes_gcm::Aes256Gcm>::from_slice(key));
    cipher.decrypt(aes_gcm::Nonce::from_slice(nonce), ciphertext.as_slice()).ok()
}

/// Relies on `String::from_utf8`: the text when the bytes are UTF-8.
#[verifier::external_body]
fn utf8_text(bytes: Vec<u8>) -> (r: Option<String>)
    ensures
        match r {
            Some(s) => utf8_decoded(bytes@) == Some(s@),
            None => utf8_decoded(bytes@) is None,
        },
{
    String::from_utf8(bytes).ok()
}

/// The key compiled into the program, if it has the length AES-256 needs.
pub fn get_aes_key(compiled: &Vec<u8>) -> (r: Option<Vec<u8>>)
    ensures
        compiled@.len() == AES_KEY_LEN ==> bytes_view(r) == Some(compiled@),
        compiled@.len() != AES_KEY_LEN ==> r is None,
{
    if compiled.len() == AES_KEY_LEN {
        Some(compiled.clone())
    } else {
        None
    }
}

/// The token text that decoded IV and ciphertext bytes give.
pub open spec fn opened_token(key: Seq<u8>, iv: Seq<u8>, ciphertext: Seq<u8>) -> Result<
    Seq<char>,
    AuthError,
> {
    if iv.len() != NONCE_LEN {
        Err(AuthError::Decrypt)
    } else {
        match aes256gcm_opened(key, iv, ciphertext) {
            None => Err(AuthError::Decrypt),
            Some(plain) => match utf8_decoded(plain) {
                None => Err(AuthError::Utf8),
                Some(t) => Ok(t),
            },
        }
    }
}

/// The token text that the service's base64 IV and ciphertext give.
pub open spec fn decrypted_token(key: Seq<u8>, iv: Seq<char>, ciphertext: Seq<char>) -> Result<
    Seq<char>,
    AuthError,
> {
    match base64_decoded(iv) {
        None => Err(AuthError::DecodeIv),
        Some(iv_bytes) => match base64_decoded(ciphertext) {
            None => Err(AuthError::DecodeCipherText),
            Some(ct) => opened_token(key, iv_bytes, ct),
        },
    }
}

pub open spec fn text_result(r: Result<String, AuthError>) -> Result<Seq<char>, AuthError> {
    match r {
        Ok(s) => Ok(s@),
        Err(e) => Err(e),
    }
}

/// Decrypts decoded IV and ciphertext bytes and reads the plaintext as UTF-8.
pub fn open_token(key: &Vec<u8>, iv: &Vec<u8>, ciphertext: &Vec<u8>) -> (r: Result<
    String,
    AuthError,
>)
    requires
        key@.len() == AES_KEY_LEN,
    ensures
        text_result(r) == opened_token(key@, iv@, ciphertext@),
{
    if iv.len() != NONCE_LEN {
        return Err(AuthError::Decrypt);
    }
    match aes_open(key, iv, ciphertext) {
        None => Err(AuthError::Decrypt),
        Some(plain) => match utf8_text(plain) {
            None => Err(AuthError::Utf8),
            Some(t) => Ok(t),
        },
    }
}

/// Decodes the base64 fields of the service's answer and decrypts the token.
pub fn decrypt_auth_token(key: &Vec<u8>, fields: &AuthFields) -> (r: Result<String, AuthError>)
    requires
        key@.len() == AES_KEY_LEN,
    ensures
        text_result(r) == decrypted_token(key@, fields.iv@, fields.encrypted_auth_token@),
{
    let iv = match crate::addr::decode_base64(fields.iv.as_str()) {
        Some(b) => b,
        None => return Err(AuthError::DecodeIv),
    };
    let ct = match crate::addr::decode_base64(fields.encrypted_auth_token.as_str()) {
        Some(b) => b,
        None => return Err(AuthError::DecodeCipherText),
    };
    open_token(key, &iv, &ct)
}

/// The cache after one bootstrap attempt, and what the attempt returns.
/// `fetched` is what the auth service answered, already split into fields.
pub open spec fn init_outcome(
    cached: Option<Seq<char>>,
    key: Seq<u8>,
    fetched: Result<(Seq<char>, Seq<char>), AuthError>,
) -> (Option<Seq<char>>, Result<(), AuthError>) {
    if cached is Some {
        (cached, Ok(()))
    } else {
        match fetched {
            Err(e) => (cached, Err(e)),
            Ok((iv, ct)) => match decrypted_token(key, iv, ct) {
                Ok(t) => (Some(t), Ok(())),
                Err(e) => (cached, Err(e)),
            },
        }
    }
}

pub open spec fn fetched_view(f: Result<AuthFields, AuthError>) -> Result<
    (Seq<char>, Seq<char>),
    AuthError,
> {
    match f {
        Ok(a) => Ok((a.iv@, a.encrypted_auth_token@)),
        Err(e) => Err(e),
    }
}

/// A write-once cell for the authorization token.
pub struct TokenCache {
    token: Option<String>,
}

impl View for TokenCache {
    type V = Option<Seq<char>>;

    closed spec fn view(&self) -> Option<Seq<char>> {
        match self.token {
            Some(t) => Some(t@),
            None => None,
        }
    }
}

impl TokenCache {
    /// An empty cache.
    pub fn new() -> (r: TokenCache)
        ensures
            r@ is None,
    {
        TokenCache { token: None }
    }

    /// Whether a bootstrap still has to reach the auth service.
    pub fn needs_fetch(&self) -> (r: bool)
        ensures
            r == (self@ is None),
    {
        self.token.is_none()
    }

    /// The cached token, or the empty string while none is cached.
    pub fn get_of_auth_token(&self) -> (r: String)
        ensures
            r@ == match self@ {
                Some(t) => t,
                None => Seq::<char>::empty(),
            },
    {
        match &self.token {
            Some(t) => t.clone(),
            None => String::new(),
        }
    }

    /// Keeps the first token that a successful attempt gives; an error
    /// leaves the cache as it was.
    pub fn store(&mut self, outcome: Result<String, AuthError>) -> (r: Result<(), AuthError>)
        ensures
            match outcome {
                Ok(t) => r == Ok::<(), AuthError>(()) && final(self)@ == match old(self)@ {
                    Some(kept) => Some(kept),
                    None => Some(t@),
                },
                Err(e) => r == Err::<(), AuthError>(e) && final(self)@ == old(self)@,
            },
    {
        match outcome {
            Ok(t) => {
                if self.token.is_none() {
                    self.token = Some(t);
                }
                Ok(())
            },
            Err(e) => Err(e),
        }
    }

    /// One bootstrap attempt: nothing to do when a token is cached; else the
    /// service's answer is decoded, decrypted and cached.
    pub fn init_of_auth_token(&mut self, key: &Vec<u8>, fetched: Result<AuthFields, AuthError>) -> (r:
        Result<(), AuthError>)
        requires
            key@.len() == AES_KEY_LEN,
        ensures
            (final(self)@, r) == init_outcome(old(self)@, key@, fetched_view(fetched)),
    {
        if self.token.is_some() {
            return Ok(());
        }
        let outcome = match fetched {
            Err(e) => Err(e),
            Ok(fields) => decrypt_auth_token(key, &fields),
        };
        self.store(outcome)
    }
}

/// A successful bootstrap is final: any later attempt succeeds at once and
/// leaves the cached token as it is, whatever the service would answer.
pub proof fn lemma_second_init_is_noop(
    cached: Option<Seq<char>>,
    key: Seq<u8>,
    first: Result<(Seq<char>, Seq<char>), AuthError>,
    second: Result<(Seq<char>, Seq<char>), AuthError>,
)
    requires
        init_outcome(cached, key, first).1 is Ok,
    ensures
        init_outcome(cached, key, first).0 is Some,
        init_outcome(init_outcome(cached, key, first).0, key, second) == (
            init_outcome(cached, key, first).0,
            Ok::<(), AuthError>(()),
        ),
{
}

/// A ciphertext whose tag does not verify fails the bootstrap with a
/// decryption error and leaves an empty cache empty.
pub proof fn lemma_rejected_ciphertext_keeps_cache_unset(
    key: Seq<u8>,
    iv: Seq<char>,
    ciphertext: Seq<char>,
    iv_bytes: Seq<u8>,
    ct_bytes: Seq<u8>,
)
    requires
        base64_decoded(iv) == Some(iv_bytes),
        base64_decoded(ciphertext) == Some(ct_bytes),
        aes256gcm_opened(key, iv_bytes, ct_bytes) is None,
    ensures
        init_outcome(None, key, Ok((iv, ciphertext))) == (
            None::<Seq<char>>,
            Err::<(), AuthError>(AuthError::Decrypt),
        ),
{
}

} // verus!
